//! Typed metadata extraction: decoding the flat string-keyed maps a request
//! carries — path parameters and query pairs — into structured values.
use vstd::prelude::*;
use crate::num::{all_digits, dec_val, parse_bool, parse_u64};
use crate::request::{spec_lookup, Modeled, Params, ParamsRep};

pub mod path;
pub mod query;

verus! {

/// Why a structured decode of a parameter map failed: a key the target
/// needs is absent, or a value does not read as the target's type.
#[derive(Clone, Copy, PartialEq, Eq, Structural, Debug)]
pub enum ExtractError {
    Missing,
    Invalid,
}

impl DeepView for ExtractError {
    type V = ExtractError;

    open spec fn deep_view(&self) -> ExtractError {
        *self
    }
}

impl Modeled for ExtractError {
    type Rep = ExtractError;

    open spec fn rep(&self) -> ExtractError {
        *self
    }
}

impl Params {
    /// The value bound to `key`, read as a decimal number: absent keys and
    /// values that are not a number in range are typed failures.
    pub fn get_u64(&self, key: &str) -> (r: Result<u64, ExtractError>)
        ensures
            match spec_lookup(self.rep(), key@) {
                None => r == Err::<u64, ExtractError>(ExtractError::Missing),
                Some(s) => match r {
                    Ok(v) => s.len() > 0 && all_digits(s) && v as int == dec_val(s),
                    Err(e) => e == ExtractError::Invalid && (s.len() == 0 || !all_digits(s)
                        || dec_val(s) > u64::MAX),
                },
            },
    {
        match self.get(key) {
            None => Err(ExtractError::Missing),
            Some(value) => match parse_u64(value.as_str()) {
                Some(v) => Ok(v),
                None => Err(ExtractError::Invalid),
            },
        }
    }

    /// The value bound to `key`, read as a boolean: absent keys and values
    /// other than `true` and `false` are typed failures.
    pub fn get_bool(&self, key: &str) -> (r: Result<bool, ExtractError>)
        ensures
            match spec_lookup(self.rep(), key@) {
                None => r == Err::<bool, ExtractError>(ExtractError::Missing),
                Some(s) => match r {
                    Ok(b) => (b ==> s == "true"@) && (!b ==> s == "false"@),
                    Err(e) => e == ExtractError::Invalid && s != "true"@ && s != "false"@,
                },
            },
    {
        match self.get(key) {
            None => Err(ExtractError::Missing),
            Some(value) => match parse_bool(value.as_str()) {
                Some(b) => Ok(b),
                None => Err(ExtractError::Invalid),
            },
        }
    }
}

/// Structured decoding from a flat key-to-string mapping: the capability a
/// type needs to be extracted from path parameters or query pairs.
pub trait FromParams: Sized + Modeled {
    /// The outcome of decoding the given pairs.
    spec fn spec_from_params(params: ParamsRep) -> Result<<Self as Modeled>::Rep, ExtractError>;

    /// Decode a value from the pairs.
    fn from_params(params: &Params) -> (r: Result<Self, ExtractError>)
        ensures
            r.rep() == Self::spec_from_params(params.rep()),
    ;
}

impl FromParams for Params {
    /// A parameter map decodes to itself.
    open spec fn spec_from_params(params: ParamsRep) -> Result<ParamsRep, ExtractError> {
        Ok(params)
    }

    fn from_params(params: &Params) -> (r: Result<Self, ExtractError>) {
        let pairs = crate::response::clone_string_pairs(&params.pairs);
        Ok(Params { pairs })
    }
}

} // verus!
