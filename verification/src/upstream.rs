//! The calls that the engine makes to the download manager, as values: which
//! method, and with which parameters. Whoever holds the connection performs
//! them.

use vstd::prelude::*;

verus! {

/// A JSON value of `serde_json`, carried through to the connection unread.
#[verifier::external_type_specification]
#[verifier::external_body]
pub struct ExJsonValue(serde_json::Value);

/// The JSON value that `serde_json` makes of an integer.
pub uninterp spec fn json_integer(n: int) -> serde_json::Value;

/// `serde_json::Value::from` on an `i32`, which wraps the integer in a JSON
/// number. The contract names the result: it depends on the integer alone.
#[verifier::external_body]
fn json_from_i32(n: i32) -> (r: serde_json::Value)
    ensures
        r == json_integer(n as int),
{
    serde_json::Value::from(n)
}

/// The three queues of the download manager that a poll reads.
#[derive(Clone, Copy, Debug, PartialEq, Eq, Structural)]
pub enum Queue {
    Active,
    Waiting,
    Stopped,
}

/// Where a page of a queue starts.
pub const PAGE_OFFSET: i32 = 0;

/// How many jobs a page of a queue holds at most.
pub const PAGE_COUNT: i32 = 1000;

/// The name of the method that lists a queue.
pub open spec fn method_name(q: Queue) -> Seq<char> {
    match q {
        Queue::Active => "tellActive"@,
        Queue::Waiting => "tellWaiting"@,
        Queue::Stopped => "tellStopped"@,
    }
}

/// The parameters of the method that lists a queue: none for the active
/// queue, which is listed whole; offset and count for the other two.
pub open spec fn method_params(q: Queue) -> Seq<serde_json::Value> {
    match q {
        Queue::Active => Seq::empty(),
        Queue::Waiting => seq![json_integer(PAGE_OFFSET as int), json_integer(PAGE_COUNT as int)],
        Queue::Stopped => seq![json_integer(PAGE_OFFSET as int), json_integer(PAGE_COUNT as int)],
    }
}

impl Queue {
    /// The name of the method that lists this queue.
    pub fn method(&self) -> (r: &'static str)
        ensures
            r@ == method_name(*self),
    {
        match self {
            Queue::Active => "tellActive",
            Queue::Waiting => "tellWaiting",
            Queue::Stopped => "tellStopped",
        }
    }

    /// The parameters of the method that lists this queue.
    pub fn params(&self) -> (r: Vec<serde_json::Value>)
        ensures
            r@ == method_params(*self),
    {
        let mut r: Vec<serde_json::Value> = Vec::new();
        match self {
            Queue::Active => {},
            _ => {
                r.push(json_from_i32(PAGE_OFFSET));
                r.push(json_from_i32(PAGE_COUNT));
            },
        }
        assert(r@ =~= method_params(*self));
        r
    }
}

} // verus!
