//! The stability indexes of an upper-air record.
use vstd::prelude::*;
use vstd::string::StringSliceAdditionalSpecFns;

use crate::error::BufkitFileError;
use crate::number::Decimal;
use crate::parse_util::{check_missing, decimal_kv, parse_f64, spec_check_missing};

verus! {

/// The stability indexes that a model run gives for one sounding. Each may be
/// absent.
#[derive(Debug, Clone, Copy, PartialEq, Eq, Structural)]
pub struct Indexes {
    /// The Showalter index.
    pub show: Option<Decimal>,
    /// The lifted index.
    pub li: Option<Decimal>,
    /// The severe weather threat index.
    pub swet: Option<Decimal>,
    /// The K index.
    pub kinx: Option<Decimal>,
    /// The pressure at the lifting condensation level, in hPa.
    pub lclp: Option<Decimal>,
    /// The precipitable water, in mm.
    pub pwat: Option<Decimal>,
    /// The total totals index.
    pub totl: Option<Decimal>,
    /// The convective available potential energy, in J/kg.
    pub cape: Option<Decimal>,
    /// The temperature at the lifting condensation level, in K.
    pub lclt: Option<Decimal>,
    /// The convective inhibition, in J/kg.
    pub cins: Option<Decimal>,
    /// The equilibrium level, in hPa.
    pub eqlv: Option<Decimal>,
    /// The level of free convection, in hPa.
    pub lfc: Option<Decimal>,
    /// The bulk Richardson number.
    pub brch: Option<Decimal>,
}

/// The value of an index, and the text to go on with: a key that is not found,
/// or whose value is no decimal, gives nothing and leaves the text as it is;
/// the missing value gives nothing either.
pub open spec fn optional_decimal_kv(s: Seq<u8>, key: Seq<u8>) -> (Option<Decimal>, Seq<u8>) {
    match decimal_kv(s, key) {
        Ok((d, rest)) => (spec_check_missing(d), rest),
        Err(_) => (None, s),
    }
}

/// The indexes that the text `s` gives. The keys are looked for in the order
/// `SHOW`, `LIFT`, `SWET`, `KINX`, `LCLP`, `PWAT`, `TOTL`, `CAPE`, `LCLT`,
/// `CINS`, `EQLV`, `LFCT`, `BRCH`, each after the value of the last one that
/// was found. A key that is not found, or whose value is no decimal or is the
/// missing value, gives an absent index.
pub open spec fn indexes_of(s: Seq<u8>) -> Indexes {
    let (show, s1) = optional_decimal_kv(s, "SHOW".spec_bytes());
    let (li, s2) = optional_decimal_kv(s1, "LIFT".spec_bytes());
    let (swet, s3) = optional_decimal_kv(s2, "SWET".spec_bytes());
    let (kinx, s4) = optional_decimal_kv(s3, "KINX".spec_bytes());
    let (lclp, s5) = optional_decimal_kv(s4, "LCLP".spec_bytes());
    let (pwat, s6) = optional_decimal_kv(s5, "PWAT".spec_bytes());
    let (totl, s7) = optional_decimal_kv(s6, "TOTL".spec_bytes());
    let (cape, s8) = optional_decimal_kv(s7, "CAPE".spec_bytes());
    let (lclt, s9) = optional_decimal_kv(s8, "LCLT".spec_bytes());
    let (cins, s10) = optional_decimal_kv(s9, "CINS".spec_bytes());
    let (eqlv, s11) = optional_decimal_kv(s10, "EQLV".spec_bytes());
    let (lfc, s12) = optional_decimal_kv(s11, "LFCT".spec_bytes());
    let (brch, s13) = optional_decimal_kv(s12, "BRCH".spec_bytes());
    Indexes { show, li, swet, kinx, lclp, pwat, totl, cape, lclt, cins, eqlv, lfc, brch }
}

/// Reads the value of an index.
pub fn parse_optional_decimal<'a>(src: &'a [u8], key: &[u8]) -> (r: (Option<Decimal>, &'a [u8]))
    ensures
        r.0 == optional_decimal_kv(src@, key@).0,
        r.1@ == optional_decimal_kv(src@, key@).1,
        r.0 is Some ==> r.0->0.wf(),
{
    match parse_f64(src, key) {
        Ok((d, rest)) => (check_missing(d), rest),
        Err(_) => (None, src),
    }
}

impl Indexes {
    /// Whether every index that is present is a well-formed decimal.
    pub open spec fn wf(&self) -> bool {
        &&& (self.show is Some ==> self.show->0.wf())
        &&& (self.li is Some ==> self.li->0.wf())
        &&& (self.swet is Some ==> self.swet->0.wf())
        &&& (self.kinx is Some ==> self.kinx->0.wf())
        &&& (self.lclp is Some ==> self.lclp->0.wf())
        &&& (self.pwat is Some ==> self.pwat->0.wf())
        &&& (self.totl is Some ==> self.totl->0.wf())
        &&& (self.cape is Some ==> self.cape->0.wf())
        &&& (self.lclt is Some ==> self.lclt->0.wf())
        &&& (self.cins is Some ==> self.cins->0.wf())
        &&& (self.eqlv is Some ==> self.eqlv->0.wf())
        &&& (self.lfc is Some ==> self.lfc->0.wf())
        &&& (self.brch is Some ==> self.brch->0.wf())
    }

    /// Parses the line of stability indexes. A missing index never fails the
    /// line: it is absent, and the scan goes on with the next key.
    pub fn parse(src: &[u8]) -> (r: Result<Indexes, BufkitFileError>)
        ensures
            r == Ok::<Indexes, BufkitFileError>(indexes_of(src@)),
            indexes_of(src@).wf(),
    {
        let (show, head) = parse_optional_decimal(src, "SHOW".as_bytes());
        let (li, head) = parse_optional_decimal(head, "LIFT".as_bytes());
        let (swet, head) = parse_optional_decimal(head, "SWET".as_bytes());
        let (kinx, head) = parse_optional_decimal(head, "KINX".as_bytes());
        let (lclp, head) = parse_optional_decimal(head, "LCLP".as_bytes());
        let (pwat, head) = parse_optional_decimal(head, "PWAT".as_bytes());
        let (totl, head) = parse_optional_decimal(head, "TOTL".as_bytes());
        let (cape, head) = parse_optional_decimal(head, "CAPE".as_bytes());
        let (lclt, head) = parse_optional_decimal(head, "LCLT".as_bytes());
        let (cins, head) = parse_optional_decimal(head, "CINS".as_bytes());
        let (eqlv, head) = parse_optional_decimal(head, "EQLV".as_bytes());
        let (lfc, head) = parse_optional_decimal(head, "LFCT".as_bytes());
        let (brch, _) = parse_optional_decimal(head, "BRCH".as_bytes());
        Ok(Indexes { show, li, swet, kinx, lclp, pwat, totl, cape, lclt, cins, eqlv, lfc, brch })
    }
}

} // verus!
