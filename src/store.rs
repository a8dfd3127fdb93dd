use vstd::prelude::*;

verus! {

/// What reading one rule from the rule store came to.
pub enum Lookup {
    /// The rule is stored; `readable` tells whether its record could be read.
    Found { readable: bool },
    Missing,
    StoreFailed,
}

/// What removing one rule from the rule store came to.
pub enum Removal {
    Removed,
    Missing,
    StoreFailed,
}

pub const STATUS_OK: u16 = 200;

pub const STATUS_NOT_FOUND: u16 = 404;

pub const STATUS_SERVER_ERROR: u16 = 500;

pub open spec fn lookup_status_of(l: Lookup) -> u16 {
    match l {
        Lookup::Found { readable } => if readable {
            STATUS_OK
        } else {
            STATUS_SERVER_ERROR
        },
        Lookup::Missing => STATUS_NOT_FOUND,
        Lookup::StoreFailed => STATUS_SERVER_ERROR,
    }
}

/// The HTTP status that answers a request for one rule.
pub fn lookup_status(l: Lookup) -> (r: u16)
    ensures
        r == lookup_status_of(l),
{
    match l {
        Lookup::Found { readable } => if readable {
            STATUS_OK
        } else {
            STATUS_SERVER_ERROR
        },
        Lookup::Missing => STATUS_NOT_FOUND,
        Lookup::StoreFailed => STATUS_SERVER_ERROR,
    }
}

pub open spec fn removal_status_of(r: Removal) -> u16 {
    match r {
        Removal::Removed => STATUS_OK,
        Removal::Missing => STATUS_NOT_FOUND,
        Removal::StoreFailed => STATUS_SERVER_ERROR,
    }
}

/// The HTTP status that answers a request to remove one rule.
pub fn removal_status(r: Removal) -> (s: u16)
    ensures
        s == removal_status_of(r),
{
    match r {
        Removal::Removed => STATUS_OK,
        Removal::Missing => STATUS_NOT_FOUND,
        Removal::StoreFailed => STATUS_SERVER_ERROR,
    }
}

/// The readable entries of a scan, in order; `None` stands for an entry
/// that could not be read.
pub open spec fn readable_of<T>(entries: Seq<Option<T>>) -> Seq<T>
    decreases entries.len(),
{
    if entries.len() == 0 {
        Seq::empty()
    } else {
        let init = readable_of(entries.drop_last());
        match entries.last() {
            Some(x) => init.push(x),
            None => init,
        }
    }
}

/// Keeps the entries of a scan that could be read, in order.
pub fn readable<T>(entries: Vec<Option<T>>) -> (r: Vec<T>)
    ensures
        r@ == readable_of(entries@),
{
    let ghost all = entries@;
    let mut rest = entries;
    let mut out: Vec<T> = Vec::new();
    let ghost mut done: int = 0;
    while rest.len() > 0
        invariant
            0 <= done <= all.len(),
            done + rest@.len() == all.len(),
            rest@ == all.subrange(done, all.len() as int),
            out@ == readable_of(all.subrange(0, done)),
        decreases rest@.len(),
    {
        let e = rest.remove(0);
        proof {
            let next = all.subrange(0, done + 1);
            assert(next.drop_last() =~= all.subrange(0, done));
            assert(next.last() == e);
        }
        match e {
            Some(x) => out.push(x),
            None => {},
        }
        proof {
            done = done + 1;
        }
    }
    assert(all.subrange(0, all.len() as int) =~= all);
    out
}

} // verus!
