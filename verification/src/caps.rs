//! Capability descriptors and advertisement. A backend declares once, when it
//! is constructed, which optional operations it supports; the engine
//! advertises exactly that set and refuses to dispatch an operation outside
//! it. The keyword spec functions here are the protocol's fixed vocabulary,
//! shared by the advertisement and the command dispatcher.
use vstd::prelude::*;

verus! {

/// The greeting command.
pub open spec fn kw_capabilities() -> Seq<char> {
    seq!['c', 'a', 'p', 'a', 'b', 'i', 'l', 'i', 't', 'i', 'e', 's']
}

/// The `list` command.
pub open spec fn kw_list() -> Seq<char> {
    seq!['l', 'i', 's', 't']
}

/// The `list for-push` command.
pub open spec fn kw_list_for_push() -> Seq<char> {
    seq!['l', 'i', 's', 't', ' ', 'f', 'o', 'r', '-', 'p', 'u', 's', 'h']
}

/// The `connect` capability keyword.
pub open spec fn kw_connect() -> Seq<char> {
    seq!['c', 'o', 'n', 'n', 'e', 'c', 't']
}

/// The `fetch` command and capability keyword.
pub open spec fn kw_fetch() -> Seq<char> {
    seq!['f', 'e', 't', 'c', 'h']
}

/// The `push` command and capability keyword.
pub open spec fn kw_push() -> Seq<char> {
    seq!['p', 'u', 's', 'h']
}

/// Which optional operations a backend supports. Filled in once by the
/// backend author when the backend is constructed; the engine treats it as
/// the single source of truth for both advertisement and dispatch.
#[derive(Clone, Copy, PartialEq, Eq, Structural, Debug)]
pub struct Capabilities {
    pub connect: bool,
    pub list: bool,
    pub list_for_push: bool,
    pub fetch: bool,
    pub push: bool,
}

/// The advertisement for a capability set: one keyword line per advertised
/// capability, in the protocol's stable order. `list` and `list for-push`
/// are plain commands, not advertised keywords.
pub open spec fn advertised_lines(c: Capabilities) -> Seq<Seq<char>> {
    (if c.connect {
        seq![kw_connect()]
    } else {
        Seq::empty()
    }) + (if c.push {
        seq![kw_push()]
    } else {
        Seq::empty()
    }) + (if c.fetch {
        seq![kw_fetch()]
    } else {
        Seq::empty()
    })
}

/// The advertisement names a capability if and only if the backend has it,
/// each keyword at most once: the advertised set exactly equals the
/// supported set.
pub proof fn lemma_advertisement_exact(c: Capabilities)
    ensures
        advertised_lines(c).contains(kw_connect()) <==> c.connect,
        advertised_lines(c).contains(kw_push()) <==> c.push,
        advertised_lines(c).contains(kw_fetch()) <==> c.fetch,
        forall|i: int|
            0 <= i < advertised_lines(c).len() ==> (advertised_lines(c)[i] == kw_connect()
                || advertised_lines(c)[i] == kw_push() || advertised_lines(c)[i] == kw_fetch()),
        advertised_lines(c).no_duplicates(),
{
    let l = advertised_lines(c);
    assert(kw_connect() != kw_push() && kw_connect() != kw_fetch() && kw_push() != kw_fetch());
    if c.connect {
        assert(l[0] == kw_connect());
    }
    if c.push {
        let i = if c.connect { 1int } else { 0int };
        assert(l[i] == kw_push());
    }
    if c.fetch {
        let i = (if c.connect { 1int } else { 0int }) + (if c.push { 1int } else { 0int });
        assert(l[i] == kw_fetch());
    }
}

/// Builds the advertisement lines for `c`.
pub fn capability_lines(c: &Capabilities) -> (r: Vec<String>)
    ensures
        r.deep_view() == advertised_lines(*c),
{
    proof {
        reveal_strlit("connect");
        reveal_strlit("push");
        reveal_strlit("fetch");
        assert("connect"@ =~= kw_connect());
        assert("push"@ =~= kw_push());
        assert("fetch"@ =~= kw_fetch());
    }
    let mut r: Vec<String> = Vec::new();
    if c.connect {
        r.push(String::from_str("connect"));
    }
    if c.push {
        r.push(String::from_str("push"));
    }
    if c.fetch {
        r.push(String::from_str("fetch"));
    }
    proof {
        assert(r.deep_view() =~= advertised_lines(*c));
    }
    r
}

} // verus!
