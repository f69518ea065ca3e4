//! The functions that the relational store offers beyond its own.

use crate::error::QsvError;
use crate::text::{hex, push_hex};
use vstd::prelude::*;
use vstd::string::{StringExecFns, StringSliceAdditionalSpecFns};

verus! {

/// The sixteen bytes of the MD5 digest that the `md5` crate computes of
/// `data`.
pub uninterp spec fn md5_digest(data: Seq<u8>) -> Seq<u8>;

/// `md5::compute`: the digest of `data`, which has sixteen bytes.
#[verifier::external_body]
fn compute_md5(data: &[u8]) -> (digest: Vec<u8>)
    ensures
        digest@ == md5_digest(data@),
        digest@.len() == 16,
{
    md5::compute(data).0.to_vec()
}

/// The MD5 digest of the UTF-8 bytes of `text`, as 32 lower-case
/// hexadecimal digits.
pub fn calculate_md5(text: &str) -> (r: String)
    ensures
        r@ == hex(md5_digest(text.spec_bytes())),
{
    let digest = compute_md5(text.as_bytes());
    let mut out = String::new();
    push_hex(&mut out, digest.as_slice());
    out
}

/// The kinds of value that the relational store holds.
#[derive(Debug, Clone, Copy, PartialEq, Eq, Structural)]
pub enum ValueKind {
    Null,
    Integer,
    Real,
    Text,
    Blob,
}

/// What an aggregate over numbers does with one value.
#[derive(Debug, Clone, Copy, PartialEq, Eq, Structural)]
pub enum Step {
    /// The value is null: it is counted, and adds nothing else.
    CountNull,
    /// The value is a number: it is added.
    Add,
}

/// What an aggregate over numbers does with a value of kind `kind`: nulls
/// are counted, integers and reals are added, text and blobs are refused.
pub open spec fn step_for(kind: ValueKind) -> Option<Step> {
    match kind {
        ValueKind::Null => Some(Step::CountNull),
        ValueKind::Integer => Some(Step::Add),
        ValueKind::Real => Some(Step::Add),
        ValueKind::Text => None,
        ValueKind::Blob => None,
    }
}

fn step(kind: ValueKind, refusal: &str) -> (r: Result<Step, QsvError>)
    ensures
        match r {
            Ok(step) => step_for(kind) == Some(step),
            Err(e) => step_for(kind) is None && e is UdfType && e.text() == refusal@,
        },
{
    match kind {
        ValueKind::Null => Ok(Step::CountNull),
        ValueKind::Integer => Ok(Step::Add),
        ValueKind::Real => Ok(Step::Add),
        ValueKind::Text => Err(QsvError::UdfType(String::from_str(refusal))),
        ValueKind::Blob => Err(QsvError::UdfType(String::from_str(refusal))),
    }
}

/// The population standard deviation of the numbers of a column.
pub struct Stddev;

impl Stddev {
    /// What the aggregate does with a value of kind `kind`.
    pub fn step(kind: ValueKind) -> (r: Result<Step, QsvError>)
        ensures
            match r {
                Ok(step) => step_for(kind) == Some(step),
                Err(e) => step_for(kind) is None && e is UdfType && e.text()
                    == "can't take stddev of this value"@,
            },
    {
        step(kind, "can't take stddev of this value")
    }
}

/// The arithmetic mean of the numbers of a column.
pub struct Mean;

impl Mean {
    /// What the aggregate does with a value of kind `kind`.
    pub fn step(kind: ValueKind) -> (r: Result<Step, QsvError>)
        ensures
            match r {
                Ok(step) => step_for(kind) == Some(step),
                Err(e) => step_for(kind) is None && e is UdfType && e.text()
                    == "can't take mean of this value"@,
            },
    {
        step(kind, "can't take mean of this value")
    }
}

} // verus!
