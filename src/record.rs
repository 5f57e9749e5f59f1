//! The unit of persistence and the queue payload that carries it.
use vstd::prelude::*;

verus! {

/// One inscription, as extracted from a transaction and written as one row.
#[derive(Clone, Debug, PartialEq, Eq)]
pub struct DbInscription {
    pub slot: i64,
    pub signature: String,
    pub account: String,
    pub mint_account: Option<String>,
    pub metadata_account: String,
    pub authority: String,
    pub write_version: u64,
}

/// The mathematical value of a [`DbInscription`].
pub struct InscriptionView {
    pub slot: i64,
    pub signature: Seq<char>,
    pub account: Seq<char>,
    pub mint_account: Option<Seq<char>>,
    pub metadata_account: Seq<char>,
    pub authority: Seq<char>,
    pub write_version: u64,
}

pub open spec fn opt_text(o: Option<String>) -> Option<Seq<char>> {
    match o {
        Some(s) => Some(s@),
        None => None,
    }
}

impl View for DbInscription {
    type V = InscriptionView;

    open spec fn view(&self) -> InscriptionView {
        InscriptionView {
            slot: self.slot,
            signature: self.signature@,
            account: self.account@,
            mint_account: opt_text(self.mint_account),
            metadata_account: self.metadata_account@,
            authority: self.authority@,
            write_version: self.write_version,
        }
    }
}

/// A request to persist one inscription.
pub struct LogInscriptionRequest {
    pub inscription_info: DbInscription,
}

/// What travels through the work queue: one operation on one record.
pub enum DbWorkItem {
    LogInscription(LogInscriptionRequest),
}

impl DbWorkItem {
    /// The record that the item carries.
    pub open spec fn record(&self) -> DbInscription {
        match self {
            DbWorkItem::LogInscription(req) => req.inscription_info,
        }
    }

    /// Takes the record out of the item.
    pub fn into_record(self) -> (r: DbInscription)
        ensures
            r == self.record(),
    {
        match self {
            DbWorkItem::LogInscription(req) => req.inscription_info,
        }
    }
}

} // verus!
