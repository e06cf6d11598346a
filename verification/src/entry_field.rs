//! The field taxonomy: each recognized name carries its value kind, and
//! an unknown name is kept under `Other`. Coercion runs the raw value
//! through the matching value grammar.

use crate::chars::str_eq;
use crate::date::{date_spec, month_res, year_res, Date};
use crate::edition::{edition_spec, Edition, EditionV};
use crate::pages::{pages_spec, Pages, PagesV};
use crate::person::{people_spec, Person, PersonV};
use crate::strutil::{parse_u32_chars, parse_u32_spec, quoted_msg};
use crate::chars::str_chars;
use vstd::prelude::*;

verus! {

/// One classified field of an entry.
#[derive(Debug)]
pub enum EntryField {
    Abstract(String),
    Afterword(String),
    Annotation(String),
    Annotator(Vec<Person>),
    Author(Vec<Person>),
    AuthorType(String),
    BookAuthor(Vec<Person>),
    BookPagination(String),
    BookSubtitle(String),
    Chapter(String),
    Commentator(Vec<Person>),
    Date(Date),
    Doi(String),
    Edition(Edition),
    Editor(Vec<Person>),
    EditorType(String),
    Eid(String),
    EntrySubtype,
    EPrint(String),
    EPrintType(String),
    EPrintClass(String),
    EventDate(Date),
    EventTitle(String),
    File(String),
    Foreword(String),
    Holder(Vec<Person>),
    HowPublished(String),
    IndexTitle(String),
    Institution(String),
    Introduction(String),
    Isan(String),
    Isbn(String),
    Ismn(String),
    Isrn(String),
    Issue(String),
    IssueSubtitle(String),
    IssueTitle(String),
    Iswc(String),
    Journal(String),
    JournalSubtitle(String),
    JournalTitle(String),
    Label(String),
    Language(String),
    Library(String),
    Location(String),
    MainSubtitle(String),
    MainTitle(String),
    Month(Date),
    Note(String),
    Number(String),
    Organization(String),
    OrigDate(Date),
    OrigLanguage(String),
    OrigLocation(String),
    OrigPublisher(String),
    OrigTitle(String),
    Pages(Vec<Pages>),
    PageTotal(u32),
    Pagination(String),
    Part(String),
    Publisher(String),
    PubState(String),
    ReprintTitle(String),
    Series(String),
    ShortAuthor(String),
    ShortEdition(String),
    Shorthand(String),
    ShorthandIntro(String),
    ShortJournal(String),
    ShortSeries(String),
    ShortTitle(String),
    Subtitle(String),
    Title(String),
    Translator(Vec<Person>),
    Type(String),
    Url(String),
    UrlDate(Date),
    Venue(String),
    Version(String),
    Volume(String),
    Year(Date),
    Other(String),
}

/// Spec-level image of a field.
pub enum EntryFieldV {
    Abstract(Seq<char>),
    Afterword(Seq<char>),
    Annotation(Seq<char>),
    Annotator(Seq<PersonV>),
    Author(Seq<PersonV>),
    AuthorType(Seq<char>),
    BookAuthor(Seq<PersonV>),
    BookPagination(Seq<char>),
    BookSubtitle(Seq<char>),
    Chapter(Seq<char>),
    Commentator(Seq<PersonV>),
    Date(Date),
    Doi(Seq<char>),
    Edition(EditionV),
    Editor(Seq<PersonV>),
    EditorType(Seq<char>),
    Eid(Seq<char>),
    EntrySubtype,
    EPrint(Seq<char>),
    EPrintType(Seq<char>),
    EPrintClass(Seq<char>),
    EventDate(Date),
    EventTitle(Seq<char>),
    File(Seq<char>),
    Foreword(Seq<char>),
    Holder(Seq<PersonV>),
    HowPublished(Seq<char>),
    IndexTitle(Seq<char>),
    Institution(Seq<char>),
    Introduction(Seq<char>),
    Isan(Seq<char>),
    Isbn(Seq<char>),
    Ismn(Seq<char>),
    Isrn(Seq<char>),
    Issue(Seq<char>),
    IssueSubtitle(Seq<char>),
    IssueTitle(Seq<char>),
    Iswc(Seq<char>),
    Journal(Seq<char>),
    JournalSubtitle(Seq<char>),
    JournalTitle(Seq<char>),
    Label(Seq<char>),
    Language(Seq<char>),
    Library(Seq<char>),
    Location(Seq<char>),
    MainSubtitle(Seq<char>),
    MainTitle(Seq<char>),
    Month(Date),
    Note(Seq<char>),
    Number(Seq<char>),
    Organization(Seq<char>),
    OrigDate(Date),
    OrigLanguage(Seq<char>),
    OrigLocation(Seq<char>),
    OrigPublisher(Seq<char>),
    OrigTitle(Seq<char>),
    Pages(Seq<PagesV>),
    PageTotal(u32),
    Pagination(Seq<char>),
    Part(Seq<char>),
    Publisher(Seq<char>),
    PubState(Seq<char>),
    ReprintTitle(Seq<char>),
    Series(Seq<char>),
    ShortAuthor(Seq<char>),
    ShortEdition(Seq<char>),
    Shorthand(Seq<char>),
    ShorthandIntro(Seq<char>),
    ShortJournal(Seq<char>),
    ShortSeries(Seq<char>),
    ShortTitle(Seq<char>),
    Subtitle(Seq<char>),
    Title(Seq<char>),
    Translator(Seq<PersonV>),
    Type(Seq<char>),
    Url(Seq<char>),
    UrlDate(Date),
    Venue(Seq<char>),
    Version(Seq<char>),
    Volume(Seq<char>),
    Year(Date),
    Other(Seq<char>),
}

impl View for EntryField {
    type V = EntryFieldV;

    open spec fn view(&self) -> EntryFieldV {
        match self {
            EntryField::Abstract(x) => EntryFieldV::Abstract(x@),
            EntryField::Afterword(x) => EntryFieldV::Afterword(x@),
            EntryField::Annotation(x) => EntryFieldV::Annotation(x@),
            EntryField::Annotator(x) => EntryFieldV::Annotator(x.deep_view()),
            EntryField::Author(x) => EntryFieldV::Author(x.deep_view()),
            EntryField::AuthorType(x) => EntryFieldV::AuthorType(x@),
            EntryField::BookAuthor(x) => EntryFieldV::BookAuthor(x.deep_view()),
            EntryField::BookPagination(x) => EntryFieldV::BookPagination(x@),
            EntryField::BookSubtitle(x) => EntryFieldV::BookSubtitle(x@),
            EntryField::Chapter(x) => EntryFieldV::Chapter(x@),
            EntryField::Commentator(x) => EntryFieldV::Commentator(x.deep_view()),
            EntryField::Date(x) => EntryFieldV::Date(*x),
            EntryField::Doi(x) => EntryFieldV::Doi(x@),
            EntryField::Edition(x) => EntryFieldV::Edition(x@),
            EntryField::Editor(x) => EntryFieldV::Editor(x.deep_view()),
            EntryField::EditorType(x) => EntryFieldV::EditorType(x@),
            EntryField::Eid(x) => EntryFieldV::Eid(x@),
            EntryField::EntrySubtype => EntryFieldV::EntrySubtype,
            EntryField::EPrint(x) => EntryFieldV::EPrint(x@),
            EntryField::EPrintType(x) => EntryFieldV::EPrintType(x@),
            EntryField::EPrintClass(x) => EntryFieldV::EPrintClass(x@),
            EntryField::EventDate(x) => EntryFieldV::EventDate(*x),
            EntryField::EventTitle(x) => EntryFieldV::EventTitle(x@),
            EntryField::File(x) => EntryFieldV::File(x@),
            EntryField::Foreword(x) => EntryFieldV::Foreword(x@),
            EntryField::Holder(x) => EntryFieldV::Holder(x.deep_view()),
            EntryField::HowPublished(x) => EntryFieldV::HowPublished(x@),
            EntryField::IndexTitle(x) => EntryFieldV::IndexTitle(x@),
            EntryField::Institution(x) => EntryFieldV::Institution(x@),
            EntryField::Introduction(x) => EntryFieldV::Introduction(x@),
            EntryField::Isan(x) => EntryFieldV::Isan(x@),
            EntryField::Isbn(x) => EntryFieldV::Isbn(x@),
            EntryField::Ismn(x) => EntryFieldV::Ismn(x@),
            EntryField::Isrn(x) => EntryFieldV::Isrn(x@),
            EntryField::Issue(x) => EntryFieldV::Issue(x@),
            EntryField::IssueSubtitle(x) => EntryFieldV::IssueSubtitle(x@),
            EntryField::IssueTitle(x) => EntryFieldV::IssueTitle(x@),
            EntryField::Iswc(x) => EntryFieldV::Iswc(x@),
            EntryField::Journal(x) => EntryFieldV::Journal(x@),
            EntryField::JournalSubtitle(x) => EntryFieldV::JournalSubtitle(x@),
            EntryField::JournalTitle(x) => EntryFieldV::JournalTitle(x@),
            EntryField::Label(x) => EntryFieldV::Label(x@),
            EntryField::Language(x) => EntryFieldV::Language(x@),
            EntryField::Library(x) => EntryFieldV::Library(x@),
            EntryField::Location(x) => EntryFieldV::Location(x@),
            EntryField::MainSubtitle(x) => EntryFieldV::MainSubtitle(x@),
            EntryField::MainTitle(x) => EntryFieldV::MainTitle(x@),
            EntryField::Month(x) => EntryFieldV::Month(*x),
            EntryField::Note(x) => EntryFieldV::Note(x@),
            EntryField::Number(x) => EntryFieldV::Number(x@),
            EntryField::Organization(x) => EntryFieldV::Organization(x@),
            EntryField::OrigDate(x) => EntryFieldV::OrigDate(*x),
            EntryField::OrigLanguage(x) => EntryFieldV::OrigLanguage(x@),
            EntryField::OrigLocation(x) => EntryFieldV::OrigLocation(x@),
            EntryField::OrigPublisher(x) => EntryFieldV::OrigPublisher(x@),
            EntryField::OrigTitle(x) => EntryFieldV::OrigTitle(x@),
            EntryField::Pages(x) => EntryFieldV::Pages(x.deep_view()),
            EntryField::PageTotal(x) => EntryFieldV::PageTotal(*x),
            EntryField::Pagination(x) => EntryFieldV::Pagination(x@),
            EntryField::Part(x) => EntryFieldV::Part(x@),
            EntryField::Publisher(x) => EntryFieldV::Publisher(x@),
            EntryField::PubState(x) => EntryFieldV::PubState(x@),
            EntryField::ReprintTitle(x) => EntryFieldV::ReprintTitle(x@),
            EntryField::Series(x) => EntryFieldV::Series(x@),
            EntryField::ShortAuthor(x) => EntryFieldV::ShortAuthor(x@),
            EntryField::ShortEdition(x) => EntryFieldV::ShortEdition(x@),
            EntryField::Shorthand(x) => EntryFieldV::Shorthand(x@),
            EntryField::ShorthandIntro(x) => EntryFieldV::ShorthandIntro(x@),
            EntryField::ShortJournal(x) => EntryFieldV::ShortJournal(x@),
            EntryField::ShortSeries(x) => EntryFieldV::ShortSeries(x@),
            EntryField::ShortTitle(x) => EntryFieldV::ShortTitle(x@),
            EntryField::Subtitle(x) => EntryFieldV::Subtitle(x@),
            EntryField::Title(x) => EntryFieldV::Title(x@),
            EntryField::Translator(x) => EntryFieldV::Translator(x.deep_view()),
            EntryField::Type(x) => EntryFieldV::Type(x@),
            EntryField::Url(x) => EntryFieldV::Url(x@),
            EntryField::UrlDate(x) => EntryFieldV::UrlDate(*x),
            EntryField::Venue(x) => EntryFieldV::Venue(x@),
            EntryField::Version(x) => EntryFieldV::Version(x@),
            EntryField::Volume(x) => EntryFieldV::Volume(x@),
            EntryField::Year(x) => EntryFieldV::Year(*x),
            EntryField::Other(s) => EntryFieldV::Other(s@),
        }
    }
}

impl DeepView for EntryField {
    type V = EntryFieldV;

    open spec fn deep_view(&self) -> EntryFieldV {
        self.view()
    }
}

/// Whether two person lists hold the same people.
fn people_eq(a: &Vec<Person>, b: &Vec<Person>) -> (r: bool)
    ensures
        r == (a.deep_view() == b.deep_view()),
{
    if a.len() != b.len() {
        proof {
            assert(a.deep_view().len() != b.deep_view().len());
        }
        return false;
    }
    let n = a.len();
    let mut i: usize = 0;
    while i < n
        invariant
            i <= n,
            n == a@.len() == b@.len(),
            forall|j: int| 0 <= j < i ==> a@[j]@ == b@[j]@,
        decreases n - i,
    {
        if !(a[i] == b[i]) {
            proof {
                assert(a.deep_view()[i as int] != b.deep_view()[i as int]);
            }
            return false;
        }
        i = i + 1;
    }
    proof {
        assert forall|j: int| 0 <= j < n implies a.deep_view()[j] == b.deep_view()[j] by {
            assert(a@[j]@ == b@[j]@);
        }
        assert(a.deep_view() =~= b.deep_view());
    }
    true
}

/// Whether two pages lists hold the same segments.
fn pages_eq(a: &Vec<Pages>, b: &Vec<Pages>) -> (r: bool)
    ensures
        r == (a.deep_view() == b.deep_view()),
{
    if a.len() != b.len() {
        proof {
            assert(a.deep_view().len() != b.deep_view().len());
        }
        return false;
    }
    let n = a.len();
    let mut i: usize = 0;
    while i < n
        invariant
            i <= n,
            n == a@.len() == b@.len(),
            forall|j: int| 0 <= j < i ==> a@[j]@ == b@[j]@,
        decreases n - i,
    {
        if !(a[i] == b[i]) {
            proof {
                assert(a.deep_view()[i as int] != b.deep_view()[i as int]);
            }
            return false;
        }
        i = i + 1;
    }
    proof {
        assert forall|j: int| 0 <= j < n implies a.deep_view()[j] == b.deep_view()[j] by {
            assert(a@[j]@ == b@[j]@);
        }
        assert(a.deep_view() =~= b.deep_view());
    }
    true
}

impl PartialEq for EntryField {
    fn eq(&self, other: &Self) -> (r: bool) {
        match (self, other) {
            (EntryField::Abstract(a), EntryField::Abstract(b)) => *a == *b,
            (EntryField::Afterword(a), EntryField::Afterword(b)) => *a == *b,
            (EntryField::Annotation(a), EntryField::Annotation(b)) => *a == *b,
            (EntryField::Annotator(a), EntryField::Annotator(b)) => people_eq(a, b),
            (EntryField::Author(a), EntryField::Author(b)) => people_eq(a, b),
            (EntryField::AuthorType(a), EntryField::AuthorType(b)) => *a == *b,
            (EntryField::BookAuthor(a), EntryField::BookAuthor(b)) => people_eq(a, b),
            (EntryField::BookPagination(a), EntryField::BookPagination(b)) => *a == *b,
            (EntryField::BookSubtitle(a), EntryField::BookSubtitle(b)) => *a == *b,
            (EntryField::Chapter(a), EntryField::Chapter(b)) => *a == *b,
            (EntryField::Commentator(a), EntryField::Commentator(b)) => people_eq(a, b),
            (EntryField::Date(a), EntryField::Date(b)) => *a == *b,
            (EntryField::Doi(a), EntryField::Doi(b)) => *a == *b,
            (EntryField::Edition(a), EntryField::Edition(b)) => *a == *b,
            (EntryField::Editor(a), EntryField::Editor(b)) => people_eq(a, b),
            (EntryField::EditorType(a), EntryField::EditorType(b)) => *a == *b,
            (EntryField::Eid(a), EntryField::Eid(b)) => *a == *b,
            (EntryField::EntrySubtype, EntryField::EntrySubtype) => true,
            (EntryField::EPrint(a), EntryField::EPrint(b)) => *a == *b,
            (EntryField::EPrintType(a), EntryField::EPrintType(b)) => *a == *b,
            (EntryField::EPrintClass(a), EntryField::EPrintClass(b)) => *a == *b,
            (EntryField::EventDate(a), EntryField::EventDate(b)) => *a == *b,
            (EntryField::EventTitle(a), EntryField::EventTitle(b)) => *a == *b,
            (EntryField::File(a), EntryField::File(b)) => *a == *b,
            (EntryField::Foreword(a), EntryField::Foreword(b)) => *a == *b,
            (EntryField::Holder(a), EntryField::Holder(b)) => people_eq(a, b),
            (EntryField::HowPublished(a), EntryField::HowPublished(b)) => *a == *b,
            (EntryField::IndexTitle(a), EntryField::IndexTitle(b)) => *a == *b,
            (EntryField::Institution(a), EntryField::Institution(b)) => *a == *b,
            (EntryField::Introduction(a), EntryField::Introduction(b)) => *a == *b,
            (EntryField::Isan(a), EntryField::Isan(b)) => *a == *b,
            (EntryField::Isbn(a), EntryField::Isbn(b)) => *a == *b,
            (EntryField::Ismn(a), EntryField::Ismn(b)) => *a == *b,
            (EntryField::Isrn(a), EntryField::Isrn(b)) => *a == *b,
            (EntryField::Issue(a), EntryField::Issue(b)) => *a == *b,
            (EntryField::IssueSubtitle(a), EntryField::IssueSubtitle(b)) => *a == *b,
            (EntryField::IssueTitle(a), EntryField::IssueTitle(b)) => *a == *b,
            (EntryField::Iswc(a), EntryField::Iswc(b)) => *a == *b,
            (EntryField::Journal(a), EntryField::Journal(b)) => *a == *b,
            (EntryField::JournalSubtitle(a), EntryField::JournalSubtitle(b)) => *a == *b,
            (EntryField::JournalTitle(a), EntryField::JournalTitle(b)) => *a == *b,
            (EntryField::Label(a), EntryField::Label(b)) => *a == *b,
            (EntryField::Language(a), EntryField::Language(b)) => *a == *b,
            (EntryField::Library(a), EntryField::Library(b)) => *a == *b,
            (EntryField::Location(a), EntryField::Location(b)) => *a == *b,
            (EntryField::MainSubtitle(a), EntryField::MainSubtitle(b)) => *a == *b,
            (EntryField::MainTitle(a), EntryField::MainTitle(b)) => *a == *b,
            (EntryField::Month(a), EntryField::Month(b)) => *a == *b,
            (EntryField::Note(a), EntryField::Note(b)) => *a == *b,
            (EntryField::Number(a), EntryField::Number(b)) => *a == *b,
            (EntryField::Organization(a), EntryField::Organization(b)) => *a == *b,
            (EntryField::OrigDate(a), EntryField::OrigDate(b)) => *a == *b,
            (EntryField::OrigLanguage(a), EntryField::OrigLanguage(b)) => *a == *b,
            (EntryField::OrigLocation(a), EntryField::OrigLocation(b)) => *a == *b,
            (EntryField::OrigPublisher(a), EntryField::OrigPublisher(b)) => *a == *b,
            (EntryField::OrigTitle(a), EntryField::OrigTitle(b)) => *a == *b,
            (EntryField::Pages(a), EntryField::Pages(b)) => pages_eq(a, b),
            (EntryField::PageTotal(a), EntryField::PageTotal(b)) => *a == *b,
            (EntryField::Pagination(a), EntryField::Pagination(b)) => *a == *b,
            (EntryField::Part(a), EntryField::Part(b)) => *a == *b,
            (EntryField::Publisher(a), EntryField::Publisher(b)) => *a == *b,
            (EntryField::PubState(a), EntryField::PubState(b)) => *a == *b,
            (EntryField::ReprintTitle(a), EntryField::ReprintTitle(b)) => *a == *b,
            (EntryField::Series(a), EntryField::Series(b)) => *a == *b,
            (EntryField::ShortAuthor(a), EntryField::ShortAuthor(b)) => *a == *b,
            (EntryField::ShortEdition(a), EntryField::ShortEdition(b)) => *a == *b,
            (EntryField::Shorthand(a), EntryField::Shorthand(b)) => *a == *b,
            (EntryField::ShorthandIntro(a), EntryField::ShorthandIntro(b)) => *a == *b,
            (EntryField::ShortJournal(a), EntryField::ShortJournal(b)) => *a == *b,
            (EntryField::ShortSeries(a), EntryField::ShortSeries(b)) => *a == *b,
            (EntryField::ShortTitle(a), EntryField::ShortTitle(b)) => *a == *b,
            (EntryField::Subtitle(a), EntryField::Subtitle(b)) => *a == *b,
            (EntryField::Title(a), EntryField::Title(b)) => *a == *b,
            (EntryField::Translator(a), EntryField::Translator(b)) => people_eq(a, b),
            (EntryField::Type(a), EntryField::Type(b)) => *a == *b,
            (EntryField::Url(a), EntryField::Url(b)) => *a == *b,
            (EntryField::UrlDate(a), EntryField::UrlDate(b)) => *a == *b,
            (EntryField::Venue(a), EntryField::Venue(b)) => *a == *b,
            (EntryField::Version(a), EntryField::Version(b)) => *a == *b,
            (EntryField::Volume(a), EntryField::Volume(b)) => *a == *b,
            (EntryField::Year(a), EntryField::Year(b)) => *a == *b,
            (EntryField::Other(a), EntryField::Other(b)) => *a == *b,
            _ => false,
        }
    }
}

impl vstd::std_specs::cmp::PartialEqSpecImpl for EntryField {
    open spec fn obeys_eq_spec() -> bool {
        true
    }

    open spec fn eq_spec(&self, other: &Self) -> bool {
        self@ == other@
    }
}

/// What a classified field of the given name holds for the given raw
/// value, or the diagnostic when its value grammar rejects it.
pub open spec fn coerce_spec(name: Seq<char>, value: Seq<char>) -> Result<
    EntryFieldV,
    Seq<char>,
> {
    if name == "abstract"@ {
        Ok(EntryFieldV::Abstract(value))
    } else if name == "afterword"@ {
        Ok(EntryFieldV::Afterword(value))
    } else if name == "annotation"@ {
        Ok(EntryFieldV::Annotation(value))
    } else if name == "annotator"@ {
        Ok(EntryFieldV::Annotator(people_spec(value)))
    } else if name == "author"@ {
        Ok(EntryFieldV::Author(people_spec(value)))
    } else if name == "authortype"@ {
        Ok(EntryFieldV::AuthorType(value))
    } else if name == "bookauthor"@ {
        Ok(EntryFieldV::BookAuthor(people_spec(value)))
    } else if name == "bookpagination"@ {
        Ok(EntryFieldV::BookPagination(value))
    } else if name == "booksubtitle"@ {
        Ok(EntryFieldV::BookSubtitle(value))
    } else if name == "booktitle"@ {
        Ok(EntryFieldV::BookSubtitle(value))
    } else if name == "chapter"@ {
        Ok(EntryFieldV::Chapter(value))
    } else if name == "commentator"@ {
        Ok(EntryFieldV::Commentator(people_spec(value)))
    } else if name == "date"@ {
        match date_spec(value) {
            Ok(d) => Ok(EntryFieldV::Date(d)),
            Err(e) => Err(e),
        }
    } else if name == "doi"@ {
        Ok(EntryFieldV::Doi(value))
    } else if name == "edition"@ {
        Ok(EntryFieldV::Edition(edition_spec(value)))
    } else if name == "editor"@ {
        Ok(EntryFieldV::Editor(people_spec(value)))
    } else if name == "editortype"@ {
        Ok(EntryFieldV::EditorType(value))
    } else if name == "eid"@ {
        Ok(EntryFieldV::Eid(value))
    } else if name == "entrysubtype"@ {
        Ok(EntryFieldV::EntrySubtype)
    } else if name == "eprint"@ {
        Ok(EntryFieldV::EPrint(value))
    } else if name == "eprinttype"@ {
        Ok(EntryFieldV::EPrintType(value))
    } else if name == "eprintclass"@ {
        Ok(EntryFieldV::EPrintClass(value))
    } else if name == "eventdate"@ {
        match date_spec(value) {
            Ok(d) => Ok(EntryFieldV::EventDate(d)),
            Err(e) => Err(e),
        }
    } else if name == "eventtitle"@ {
        Ok(EntryFieldV::EventTitle(value))
    } else if name == "file"@ {
        Ok(EntryFieldV::File(value))
    } else if name == "foreword"@ {
        Ok(EntryFieldV::Foreword(value))
    } else if name == "holder"@ {
        Ok(EntryFieldV::Holder(people_spec(value)))
    } else if name == "howpublished"@ {
        Ok(EntryFieldV::HowPublished(value))
    } else if name == "indextitle"@ {
        Ok(EntryFieldV::IndexTitle(value))
    } else if name == "institution"@ {
        Ok(EntryFieldV::Institution(value))
    } else if name == "introduction"@ {
        Ok(EntryFieldV::Introduction(value))
    } else if name == "isan"@ {
        Ok(EntryFieldV::Isan(value))
    } else if name == "isbn"@ {
        Ok(EntryFieldV::Isbn(value))
    } else if name == "ismn"@ {
        Ok(EntryFieldV::Ismn(value))
    } else if name == "isrn"@ {
        Ok(EntryFieldV::Isrn(value))
    } else if name == "issue"@ {
        Ok(EntryFieldV::Issue(value))
    } else if name == "issuesubtitle"@ {
        Ok(EntryFieldV::IssueSubtitle(value))
    } else if name == "issuetitle"@ {
        Ok(EntryFieldV::IssueTitle(value))
    } else if name == "iswc"@ {
        Ok(EntryFieldV::Iswc(value))
    } else if name == "journal"@ {
        Ok(EntryFieldV::Journal(value))
    } else if name == "journalsubtitle"@ {
        Ok(EntryFieldV::JournalSubtitle(value))
    } else if name == "journaltitle"@ {
        Ok(EntryFieldV::JournalTitle(value))
    } else if name == "label"@ {
        Ok(EntryFieldV::Label(value))
    } else if name == "language"@ {
        Ok(EntryFieldV::Language(value))
    } else if name == "library"@ {
        Ok(EntryFieldV::Library(value))
    } else if name == "location"@ {
        Ok(EntryFieldV::Location(value))
    } else if name == "mainsubtitle"@ {
        Ok(EntryFieldV::MainSubtitle(value))
    } else if name == "maintitle"@ {
        Ok(EntryFieldV::MainTitle(value))
    } else if name == "month"@ {
        match month_res(value) {
            Ok(m) => Ok(EntryFieldV::Month(Date::Month(m))),
            Err(e) => Err(e),
        }
    } else if name == "note"@ {
        Ok(EntryFieldV::Note(value))
    } else if name == "number"@ {
        Ok(EntryFieldV::Number(value))
    } else if name == "organization"@ {
        Ok(EntryFieldV::Organization(value))
    } else if name == "origdate"@ {
        match date_spec(value) {
            Ok(d) => Ok(EntryFieldV::OrigDate(d)),
            Err(e) => Err(e),
        }
    } else if name == "origlanguage"@ {
        Ok(EntryFieldV::OrigLanguage(value))
    } else if name == "origlocation"@ {
        Ok(EntryFieldV::OrigLocation(value))
    } else if name == "origpublisher"@ {
        Ok(EntryFieldV::OrigPublisher(value))
    } else if name == "origtitle"@ {
        Ok(EntryFieldV::OrigTitle(value))
    } else if name == "pages"@ {
        Ok(EntryFieldV::Pages(pages_spec(value)))
    } else if name == "pagetotal"@ {
        match parse_u32_spec(value) {
            Some(t) => Ok(EntryFieldV::PageTotal(t)),
            None => Err("Could not parse PageTotal value from '"@ + value + "'"@),
        }
    } else if name == "pagination"@ {
        Ok(EntryFieldV::Pagination(value))
    } else if name == "part"@ {
        Ok(EntryFieldV::Part(value))
    } else if name == "publisher"@ {
        Ok(EntryFieldV::Publisher(value))
    } else if name == "pubstate"@ {
        Ok(EntryFieldV::PubState(value))
    } else if name == "reprinttitle"@ {
        Ok(EntryFieldV::ReprintTitle(value))
    } else if name == "series"@ {
        Ok(EntryFieldV::Series(value))
    } else if name == "shortauthor"@ {
        Ok(EntryFieldV::ShortAuthor(value))
    } else if name == "shortedition"@ {
        Ok(EntryFieldV::ShortEdition(value))
    } else if name == "shorthand"@ {
        Ok(EntryFieldV::Shorthand(value))
    } else if name == "shorthandintro"@ {
        Ok(EntryFieldV::ShorthandIntro(value))
    } else if name == "shortjournal"@ {
        Ok(EntryFieldV::ShortJournal(value))
    } else if name == "shortseries"@ {
        Ok(EntryFieldV::ShortSeries(value))
    } else if name == "shorttitle"@ {
        Ok(EntryFieldV::ShortTitle(value))
    } else if name == "subtitle"@ {
        Ok(EntryFieldV::Subtitle(value))
    } else if name == "title"@ {
        Ok(EntryFieldV::Title(value))
    } else if name == "translator"@ {
        Ok(EntryFieldV::Translator(people_spec(value)))
    } else if name == "type"@ {
        Ok(EntryFieldV::Type(value))
    } else if name == "url"@ {
        Ok(EntryFieldV::Url(value))
    } else if name == "urldate"@ {
        match date_spec(value) {
            Ok(d) => Ok(EntryFieldV::UrlDate(d)),
            Err(e) => Err(e),
        }
    } else if name == "venue"@ {
        Ok(EntryFieldV::Venue(value))
    } else if name == "version"@ {
        Ok(EntryFieldV::Version(value))
    } else if name == "volume"@ {
        Ok(EntryFieldV::Volume(value))
    } else if name == "year"@ {
        match year_res(value) {
            Ok(y) => Ok(EntryFieldV::Year(Date::Year(y))),
            Err(e) => Err(e),
        }
    } else {
        Ok(EntryFieldV::Other(name))
    }
}

impl EntryField {
    /// Classifies a field by name and coerces its raw value.
    #[verifier::rlimit(60)]
    pub fn from_field_name_and_value(field_name: &str, value: &str) -> (r: Result<
        EntryField,
        String,
    >)
        ensures
            match coerce_spec(field_name@, value@) {
                Ok(f) => r matches Ok(ef) && ef@ == f,
                Err(e) => r matches Err(m) && m@ == e,
            },
    {
        if str_eq(field_name, "abstract") {
            Ok(EntryField::Abstract(value.to_owned()))
        } else if str_eq(field_name, "afterword") {
            Ok(EntryField::Afterword(value.to_owned()))
        } else if str_eq(field_name, "annotation") {
            Ok(EntryField::Annotation(value.to_owned()))
        } else if str_eq(field_name, "annotator") {
            match Person::people_from_str(value) {
                Ok(people) => Ok(EntryField::Annotator(people)),
                Err(e) => Err(e),
            }
        } else if str_eq(field_name, "author") {
            match Person::people_from_str(value) {
                Ok(people) => Ok(EntryField::Author(people)),
                Err(e) => Err(e),
            }
        } else if str_eq(field_name, "authortype") {
            Ok(EntryField::AuthorType(value.to_owned()))
        } else if str_eq(field_name, "bookauthor") {
            match Person::people_from_str(value) {
                Ok(people) => Ok(EntryField::BookAuthor(people)),
                Err(e) => Err(e),
            }
        } else if str_eq(field_name, "bookpagination") {
            Ok(EntryField::BookPagination(value.to_owned()))
        } else if str_eq(field_name, "booksubtitle") {
            Ok(EntryField::BookSubtitle(value.to_owned()))
        } else if str_eq(field_name, "booktitle") {
            Ok(EntryField::BookSubtitle(value.to_owned()))
        } else if str_eq(field_name, "chapter") {
            Ok(EntryField::Chapter(value.to_owned()))
        } else if str_eq(field_name, "commentator") {
            match Person::people_from_str(value) {
                Ok(people) => Ok(EntryField::Commentator(people)),
                Err(e) => Err(e),
            }
        } else if str_eq(field_name, "date") {
            match Date::parse_date_from_str(value) {
                Ok(d) => Ok(EntryField::Date(d)),
                Err(e) => Err(e),
            }
        } else if str_eq(field_name, "doi") {
            Ok(EntryField::Doi(value.to_owned()))
        } else if str_eq(field_name, "edition") {
            Ok(EntryField::Edition(Edition::parse(value)))
        } else if str_eq(field_name, "editor") {
            match Person::people_from_str(value) {
                Ok(people) => Ok(EntryField::Editor(people)),
                Err(e) => Err(e),
            }
        } else if str_eq(field_name, "editortype") {
            Ok(EntryField::EditorType(value.to_owned()))
        } else if str_eq(field_name, "eid") {
            Ok(EntryField::Eid(value.to_owned()))
        } else if str_eq(field_name, "entrysubtype") {
            Ok(EntryField::EntrySubtype)
        } else if str_eq(field_name, "eprint") {
            Ok(EntryField::EPrint(value.to_owned()))
        } else if str_eq(field_name, "eprinttype") {
            Ok(EntryField::EPrintType(value.to_owned()))
        } else if str_eq(field_name, "eprintclass") {
            Ok(EntryField::EPrintClass(value.to_owned()))
        } else if str_eq(field_name, "eventdate") {
            match Date::parse_date_from_str(value) {
                Ok(d) => Ok(EntryField::EventDate(d)),
                Err(e) => Err(e),
            }
        } else if str_eq(field_name, "eventtitle") {
            Ok(EntryField::EventTitle(value.to_owned()))
        } else if str_eq(field_name, "file") {
            Ok(EntryField::File(value.to_owned()))
        } else if str_eq(field_name, "foreword") {
            Ok(EntryField::Foreword(value.to_owned()))
        } else if str_eq(field_name, "holder") {
            match Person::people_from_str(value) {
                Ok(people) => Ok(EntryField::Holder(people)),
                Err(e) => Err(e),
            }
        } else if str_eq(field_name, "howpublished") {
            Ok(EntryField::HowPublished(value.to_owned()))
        } else if str_eq(field_name, "indextitle") {
            Ok(EntryField::IndexTitle(value.to_owned()))
        } else if str_eq(field_name, "institution") {
            Ok(EntryField::Institution(value.to_owned()))
        } else if str_eq(field_name, "introduction") {
            Ok(EntryField::Introduction(value.to_owned()))
        } else if str_eq(field_name, "isan") {
            Ok(EntryField::Isan(value.to_owned()))
        } else if str_eq(field_name, "isbn") {
            Ok(EntryField::Isbn(value.to_owned()))
        } else if str_eq(field_name, "ismn") {
            Ok(EntryField::Ismn(value.to_owned()))
        } else if str_eq(field_name, "isrn") {
            Ok(EntryField::Isrn(value.to_owned()))
        } else if str_eq(field_name, "issue") {
            Ok(EntryField::Issue(value.to_owned()))
        } else if str_eq(field_name, "issuesubtitle") {
            Ok(EntryField::IssueSubtitle(value.to_owned()))
        } else if str_eq(field_name, "issuetitle") {
            Ok(EntryField::IssueTitle(value.to_owned()))
        } else if str_eq(field_name, "iswc") {
            Ok(EntryField::Iswc(value.to_owned()))
        } else if str_eq(field_name, "journal") {
            Ok(EntryField::Journal(value.to_owned()))
        } else if str_eq(field_name, "journalsubtitle") {
            Ok(EntryField::JournalSubtitle(value.to_owned()))
        } else if str_eq(field_name, "journaltitle") {
            Ok(EntryField::JournalTitle(value.to_owned()))
        } else if str_eq(field_name, "label") {
            Ok(EntryField::Label(value.to_owned()))
        } else if str_eq(field_name, "language") {
            Ok(EntryField::Language(value.to_owned()))
        } else if str_eq(field_name, "library") {
            Ok(EntryField::Library(value.to_owned()))
        } else if str_eq(field_name, "location") {
            Ok(EntryField::Location(value.to_owned()))
        } else if str_eq(field_name, "mainsubtitle") {
            Ok(EntryField::MainSubtitle(value.to_owned()))
        } else if str_eq(field_name, "maintitle") {
            Ok(EntryField::MainTitle(value.to_owned()))
        } else if str_eq(field_name, "month") {
            match Date::parse_month_from_str(value) {
                Ok(d) => Ok(EntryField::Month(d)),
                Err(e) => Err(e),
            }
        } else if str_eq(field_name, "note") {
            Ok(EntryField::Note(value.to_owned()))
        } else if str_eq(field_name, "number") {
            Ok(EntryField::Number(value.to_owned()))
        } else if str_eq(field_name, "organization") {
            Ok(EntryField::Organization(value.to_owned()))
        } else if str_eq(field_name, "origdate") {
            match Date::parse_date_from_str(value) {
                Ok(d) => Ok(EntryField::OrigDate(d)),
                Err(e) => Err(e),
            }
        } else if str_eq(field_name, "origlanguage") {
            Ok(EntryField::OrigLanguage(value.to_owned()))
        } else if str_eq(field_name, "origlocation") {
            Ok(EntryField::OrigLocation(value.to_owned()))
        } else if str_eq(field_name, "origpublisher") {
            Ok(EntryField::OrigPublisher(value.to_owned()))
        } else if str_eq(field_name, "origtitle") {
            Ok(EntryField::OrigTitle(value.to_owned()))
        } else if str_eq(field_name, "pages") {
            Ok(EntryField::Pages(Pages::pages_from_str(value)))
        } else if str_eq(field_name, "pagetotal") {
            let cs = str_chars(value);
            match parse_u32_chars(cs.as_slice()) {
                Some(t) => Ok(EntryField::PageTotal(t)),
                None => Err(quoted_msg("Could not parse PageTotal value from '", cs.as_slice())),
            }
        } else if str_eq(field_name, "pagination") {
            Ok(EntryField::Pagination(value.to_owned()))
        } else if str_eq(field_name, "part") {
            Ok(EntryField::Part(value.to_owned()))
        } else if str_eq(field_name, "publisher") {
            Ok(EntryField::Publisher(value.to_owned()))
        } else if str_eq(field_name, "pubstate") {
            Ok(EntryField::PubState(value.to_owned()))
        } else if str_eq(field_name, "reprinttitle") {
            Ok(EntryField::ReprintTitle(value.to_owned()))
        } else if str_eq(field_name, "series") {
            Ok(EntryField::Series(value.to_owned()))
        } else if str_eq(field_name, "shortauthor") {
            Ok(EntryField::ShortAuthor(value.to_owned()))
        } else if str_eq(field_name, "shortedition") {
            Ok(EntryField::ShortEdition(value.to_owned()))
        } else if str_eq(field_name, "shorthand") {
            Ok(EntryField::Shorthand(value.to_owned()))
        } else if str_eq(field_name, "shorthandintro") {
            Ok(EntryField::ShorthandIntro(value.to_owned()))
        } else if str_eq(field_name, "shortjournal") {
            Ok(EntryField::ShortJournal(value.to_owned()))
        } else if str_eq(field_name, "shortseries") {
            Ok(EntryField::ShortSeries(value.to_owned()))
        } else if str_eq(field_name, "shorttitle") {
            Ok(EntryField::ShortTitle(value.to_owned()))
        } else if str_eq(field_name, "subtitle") {
            Ok(EntryField::Subtitle(value.to_owned()))
        } else if str_eq(field_name, "title") {
            Ok(EntryField::Title(value.to_owned()))
        } else if str_eq(field_name, "translator") {
            match Person::people_from_str(value) {
                Ok(people) => Ok(EntryField::Translator(people)),
                Err(e) => Err(e),
            }
        } else if str_eq(field_name, "type") {
            Ok(EntryField::Type(value.to_owned()))
        } else if str_eq(field_name, "url") {
            Ok(EntryField::Url(value.to_owned()))
        } else if str_eq(field_name, "urldate") {
            match Date::parse_date_from_str(value) {
                Ok(d) => Ok(EntryField::UrlDate(d)),
                Err(e) => Err(e),
            }
        } else if str_eq(field_name, "venue") {
            Ok(EntryField::Venue(value.to_owned()))
        } else if str_eq(field_name, "version") {
            Ok(EntryField::Version(value.to_owned()))
        } else if str_eq(field_name, "volume") {
            Ok(EntryField::Volume(value.to_owned()))
        } else if str_eq(field_name, "year") {
            match Date::parse_year_from_str(value) {
                Ok(d) => Ok(EntryField::Year(d)),
                Err(e) => Err(e),
            }
        } else {
            Ok(EntryField::Other(field_name.to_owned()))
        }
    }
}

} // verus!
