//! The closed set of recognized entry kinds; unknown names are kept
//! verbatim under `Other`.

use crate::chars::str_eq;
use vstd::prelude::*;

verus! {

/// A recognized entry kind, or `Other` for an unknown name.
#[derive(Debug)]
pub enum EntryType {
    Article,
    Book,
    MvBook,
    InBook,
    BookInBook,
    SuppBook,
    Booklet,
    Collection,
    MvCollection,
    InCollection,
    SuppCollection,
    Manual,
    Misc,
    Online,
    Patent,
    Periodical,
    SuppPeriodical,
    Proceedings,
    MvProceedings,
    InProceedings,
    Reference,
    MvReference,
    InReference,
    Report,
    EntrySet,
    Thesis,
    Unpublished,
    Custom,
    Conference,
    Electronic,
    MasterThesis,
    PhdThesis,
    TechReport,
    DataType,
    Other(String),
}

/// Spec-level image of an entry kind.
pub enum EntryTypeV {
    Article,
    Book,
    MvBook,
    InBook,
    BookInBook,
    SuppBook,
    Booklet,
    Collection,
    MvCollection,
    InCollection,
    SuppCollection,
    Manual,
    Misc,
    Online,
    Patent,
    Periodical,
    SuppPeriodical,
    Proceedings,
    MvProceedings,
    InProceedings,
    Reference,
    MvReference,
    InReference,
    Report,
    EntrySet,
    Thesis,
    Unpublished,
    Custom,
    Conference,
    Electronic,
    MasterThesis,
    PhdThesis,
    TechReport,
    DataType,
    Other(Seq<char>),
}

impl View for EntryType {
    type V = EntryTypeV;

    open spec fn view(&self) -> EntryTypeV {
        match self {
            EntryType::Article => EntryTypeV::Article,
            EntryType::Book => EntryTypeV::Book,
            EntryType::MvBook => EntryTypeV::MvBook,
            EntryType::InBook => EntryTypeV::InBook,
            EntryType::BookInBook => EntryTypeV::BookInBook,
            EntryType::SuppBook => EntryTypeV::SuppBook,
            EntryType::Booklet => EntryTypeV::Booklet,
            EntryType::Collection => EntryTypeV::Collection,
            EntryType::MvCollection => EntryTypeV::MvCollection,
            EntryType::InCollection => EntryTypeV::InCollection,
            EntryType::SuppCollection => EntryTypeV::SuppCollection,
            EntryType::Manual => EntryTypeV::Manual,
            EntryType::Misc => EntryTypeV::Misc,
            EntryType::Online => EntryTypeV::Online,
            EntryType::Patent => EntryTypeV::Patent,
            EntryType::Periodical => EntryTypeV::Periodical,
            EntryType::SuppPeriodical => EntryTypeV::SuppPeriodical,
            EntryType::Proceedings => EntryTypeV::Proceedings,
            EntryType::MvProceedings => EntryTypeV::MvProceedings,
            EntryType::InProceedings => EntryTypeV::InProceedings,
            EntryType::Reference => EntryTypeV::Reference,
            EntryType::MvReference => EntryTypeV::MvReference,
            EntryType::InReference => EntryTypeV::InReference,
            EntryType::Report => EntryTypeV::Report,
            EntryType::EntrySet => EntryTypeV::EntrySet,
            EntryType::Thesis => EntryTypeV::Thesis,
            EntryType::Unpublished => EntryTypeV::Unpublished,
            EntryType::Custom => EntryTypeV::Custom,
            EntryType::Conference => EntryTypeV::Conference,
            EntryType::Electronic => EntryTypeV::Electronic,
            EntryType::MasterThesis => EntryTypeV::MasterThesis,
            EntryType::PhdThesis => EntryTypeV::PhdThesis,
            EntryType::TechReport => EntryTypeV::TechReport,
            EntryType::DataType => EntryTypeV::DataType,
            EntryType::Other(s) => EntryTypeV::Other(s@),
        }
    }
}

impl DeepView for EntryType {
    type V = EntryTypeV;

    open spec fn deep_view(&self) -> EntryTypeV {
        self.view()
    }
}

impl PartialEq for EntryType {
    fn eq(&self, other: &Self) -> (r: bool) {
        match (self, other) {
            (EntryType::Article, EntryType::Article) => true,
            (EntryType::Book, EntryType::Book) => true,
            (EntryType::MvBook, EntryType::MvBook) => true,
            (EntryType::InBook, EntryType::InBook) => true,
            (EntryType::BookInBook, EntryType::BookInBook) => true,
            (EntryType::SuppBook, EntryType::SuppBook) => true,
            (EntryType::Booklet, EntryType::Booklet) => true,
            (EntryType::Collection, EntryType::Collection) => true,
            (EntryType::MvCollection, EntryType::MvCollection) => true,
            (EntryType::InCollection, EntryType::InCollection) => true,
            (EntryType::SuppCollection, EntryType::SuppCollection) => true,
            (EntryType::Manual, EntryType::Manual) => true,
            (EntryType::Misc, EntryType::Misc) => true,
            (EntryType::Online, EntryType::Online) => true,
            (EntryType::Patent, EntryType::Patent) => true,
            (EntryType::Periodical, EntryType::Periodical) => true,
            (EntryType::SuppPeriodical, EntryType::SuppPeriodical) => true,
            (EntryType::Proceedings, EntryType::Proceedings) => true,
            (EntryType::MvProceedings, EntryType::MvProceedings) => true,
            (EntryType::InProceedings, EntryType::InProceedings) => true,
            (EntryType::Reference, EntryType::Reference) => true,
            (EntryType::MvReference, EntryType::MvReference) => true,
            (EntryType::InReference, EntryType::InReference) => true,
            (EntryType::Report, EntryType::Report) => true,
            (EntryType::EntrySet, EntryType::EntrySet) => true,
            (EntryType::Thesis, EntryType::Thesis) => true,
            (EntryType::Unpublished, EntryType::Unpublished) => true,
            (EntryType::Custom, EntryType::Custom) => true,
            (EntryType::Conference, EntryType::Conference) => true,
            (EntryType::Electronic, EntryType::Electronic) => true,
            (EntryType::MasterThesis, EntryType::MasterThesis) => true,
            (EntryType::PhdThesis, EntryType::PhdThesis) => true,
            (EntryType::TechReport, EntryType::TechReport) => true,
            (EntryType::DataType, EntryType::DataType) => true,
            (EntryType::Other(a), EntryType::Other(b)) => *a == *b,
            _ => false,
        }
    }
}

impl vstd::std_specs::cmp::PartialEqSpecImpl for EntryType {
    open spec fn obeys_eq_spec() -> bool {
        true
    }

    open spec fn eq_spec(&self, other: &Self) -> bool {
        self@ == other@
    }
}

/// The kind a lowercased type name denotes; only the exact recognized
/// names are known.
pub open spec fn classify_type(s: Seq<char>) -> EntryTypeV {
    if s == "article"@ {
        EntryTypeV::Article
    } else if s == "book"@ {
        EntryTypeV::Book
    } else if s == "mvbook"@ {
        EntryTypeV::MvBook
    } else if s == "inbook"@ {
        EntryTypeV::InBook
    } else if s == "bookinbook"@ {
        EntryTypeV::BookInBook
    } else if s == "suppbook"@ {
        EntryTypeV::SuppBook
    } else if s == "booklet"@ {
        EntryTypeV::Booklet
    } else if s == "collection"@ {
        EntryTypeV::Collection
    } else if s == "mvcollection"@ {
        EntryTypeV::MvCollection
    } else if s == "incollection"@ {
        EntryTypeV::InCollection
    } else if s == "suppcollection"@ {
        EntryTypeV::SuppCollection
    } else if s == "manual"@ {
        EntryTypeV::Manual
    } else if s == "misc"@ {
        EntryTypeV::Misc
    } else if s == "online"@ {
        EntryTypeV::Online
    } else if s == "patent"@ {
        EntryTypeV::Patent
    } else if s == "periodical"@ {
        EntryTypeV::Periodical
    } else if s == "suppperiodical"@ {
        EntryTypeV::SuppPeriodical
    } else if s == "proceedings"@ {
        EntryTypeV::Proceedings
    } else if s == "mvproceedings"@ {
        EntryTypeV::MvProceedings
    } else if s == "inproceedings"@ {
        EntryTypeV::InProceedings
    } else if s == "reference"@ {
        EntryTypeV::Reference
    } else if s == "mvreference"@ {
        EntryTypeV::MvReference
    } else if s == "inreference"@ {
        EntryTypeV::InReference
    } else if s == "report"@ {
        EntryTypeV::Report
    } else if s == "set"@ {
        EntryTypeV::EntrySet
    } else if s == "thesis"@ {
        EntryTypeV::Thesis
    } else if s == "unpublished"@ {
        EntryTypeV::Unpublished
    } else if s == "custom"@ {
        EntryTypeV::Custom
    } else if s == "conference"@ {
        EntryTypeV::Conference
    } else if s == "electronic"@ {
        EntryTypeV::Electronic
    } else if s == "masterthesis"@ {
        EntryTypeV::MasterThesis
    } else if s == "phdthesis"@ {
        EntryTypeV::PhdThesis
    } else if s == "techreport"@ {
        EntryTypeV::TechReport
    } else if s == "datatype"@ {
        EntryTypeV::DataType
    } else {
        EntryTypeV::Other(s)
    }
}

impl EntryType {
    /// Classifies a type name.
    pub fn from_str(s: &str) -> (r: EntryType)
        ensures
            r@ == classify_type(s@),
    {
        if str_eq(s, "article") {
            EntryType::Article
        } else if str_eq(s, "book") {
            EntryType::Book
        } else if str_eq(s, "mvbook") {
            EntryType::MvBook
        } else if str_eq(s, "inbook") {
            EntryType::InBook
        } else if str_eq(s, "bookinbook") {
            EntryType::BookInBook
        } else if str_eq(s, "suppbook") {
            EntryType::SuppBook
        } else if str_eq(s, "booklet") {
            EntryType::Booklet
        } else if str_eq(s, "collection") {
            EntryType::Collection
        } else if str_eq(s, "mvcollection") {
            EntryType::MvCollection
        } else if str_eq(s, "incollection") {
            EntryType::InCollection
        } else if str_eq(s, "suppcollection") {
            EntryType::SuppCollection
        } else if str_eq(s, "manual") {
            EntryType::Manual
        } else if str_eq(s, "misc") {
            EntryType::Misc
        } else if str_eq(s, "online") {
            EntryType::Online
        } else if str_eq(s, "patent") {
            EntryType::Patent
        } else if str_eq(s, "periodical") {
            EntryType::Periodical
        } else if str_eq(s, "suppperiodical") {
            EntryType::SuppPeriodical
        } else if str_eq(s, "proceedings") {
            EntryType::Proceedings
        } else if str_eq(s, "mvproceedings") {
            EntryType::MvProceedings
        } else if str_eq(s, "inproceedings") {
            EntryType::InProceedings
        } else if str_eq(s, "reference") {
            EntryType::Reference
        } else if str_eq(s, "mvreference") {
            EntryType::MvReference
        } else if str_eq(s, "inreference") {
            EntryType::InReference
        } else if str_eq(s, "report") {
            EntryType::Report
        } else if str_eq(s, "set") {
            EntryType::EntrySet
        } else if str_eq(s, "thesis") {
            EntryType::Thesis
        } else if str_eq(s, "unpublished") {
            EntryType::Unpublished
        } else if str_eq(s, "custom") {
            EntryType::Custom
        } else if str_eq(s, "conference") {
            EntryType::Conference
        } else if str_eq(s, "electronic") {
            EntryType::Electronic
        } else if str_eq(s, "masterthesis") {
            EntryType::MasterThesis
        } else if str_eq(s, "phdthesis") {
            EntryType::PhdThesis
        } else if str_eq(s, "techreport") {
            EntryType::TechReport
        } else if str_eq(s, "datatype") {
            EntryType::DataType
        } else {
            EntryType::Other(s.to_owned())
        }
    }
}

} // verus!
