//! Event bindings: which callbacks an element has bound for click, hover and
//! input. A callback is known to the host only as an opaque handle that the
//! embedding keeps for it.

use vstd::prelude::*;
use vstd::string::StringExecFns;

verus! {

/// The property keys that bind a callback.
#[derive(Clone, Copy, Debug, PartialEq, Eq, Structural)]
pub enum PropKey {
    Click,
    Hover,
    Input,
}

/// The key a property name stands for; `None` for a name that binds nothing.
pub open spec fn key_of_name(name: Seq<char>) -> Option<PropKey> {
    if name == "onClick"@ {
        Some(PropKey::Click)
    } else if name == "onHover"@ {
        Some(PropKey::Hover)
    } else if name == "onInput"@ {
        Some(PropKey::Input)
    } else {
        None
    }
}

/// Reads a property name as an event key.
pub fn parse_key(name: &str) -> (k: Option<PropKey>)
    ensures
        k == key_of_name(name@),
{
    let n = String::from_str(name);
    if n == String::from_str("onClick") {
        Some(PropKey::Click)
    } else if n == String::from_str("onHover") {
        Some(PropKey::Hover)
    } else if n == String::from_str("onInput") {
        Some(PropKey::Input)
    } else {
        None
    }
}

/// What the host needs to know of a property value: whether it can be called,
/// and if so under which handle.
#[derive(Clone, Copy, Debug, PartialEq, Eq)]
pub enum PropValue {
    Callable(u64),
    Other,
}

impl PropValue {
    /// The handle to bind: that of a callable value, nothing otherwise.
    pub open spec fn spec_handle(self) -> Option<u64> {
        match self {
            PropValue::Callable(h) => Some(h),
            PropValue::Other => None,
        }
    }

    /// The handle to bind: that of a callable value, nothing otherwise.
    #[verifier::when_used_as_spec(spec_handle)]
    pub fn handle(self) -> (h: Option<u64>)
        ensures
            h == self.spec_handle(),
    {
        match self {
            PropValue::Callable(h) => Some(h),
            PropValue::Other => None,
        }
    }
}

/// The callbacks bound to one element.
#[derive(Clone, Copy, Debug, PartialEq, Eq)]
pub struct Events {
    pub click: Option<u64>,
    pub hover: Option<u64>,
    pub input: Option<u64>,
}

impl Events {
    /// No callback bound.
    pub open spec fn spec_unbound() -> Events {
        Events { click: None, hover: None, input: None }
    }

    /// No callback bound.
    #[verifier::when_used_as_spec(spec_unbound)]
    pub fn unbound() -> (e: Events)
        ensures
            e == Events::spec_unbound(),
    {
        Events { click: None, hover: None, input: None }
    }

    /// These bindings after `key` was patched to `next`: a callable value is
    /// bound, anything else clears the binding; the other two keys stay.
    pub open spec fn spec_patched(self, key: PropKey, next: PropValue) -> Events {
        match key {
            PropKey::Click => Events { click: next.spec_handle(), ..self },
            PropKey::Hover => Events { hover: next.spec_handle(), ..self },
            PropKey::Input => Events { input: next.spec_handle(), ..self },
        }
    }

    /// These bindings after `key` was patched to `next`.
    #[verifier::when_used_as_spec(spec_patched)]
    pub fn patched(self, key: PropKey, next: PropValue) -> (e: Events)
        ensures
            e == self.spec_patched(key, next),
    {
        match key {
            PropKey::Click => Events { click: next.handle(), hover: self.hover, input: self.input },
            PropKey::Hover => Events { click: self.click, hover: next.handle(), input: self.input },
            PropKey::Input => Events { click: self.click, hover: self.hover, input: next.handle() },
        }
    }

    /// The handle bound for `key`, if any.
    pub open spec fn spec_bound(self, key: PropKey) -> Option<u64> {
        match key {
            PropKey::Click => self.click,
            PropKey::Hover => self.hover,
            PropKey::Input => self.input,
        }
    }

    /// The handle bound for `key`, if any.
    #[verifier::when_used_as_spec(spec_bound)]
    pub fn bound(self, key: PropKey) -> (h: Option<u64>)
        ensures
            h == self.spec_bound(key),
    {
        match key {
            PropKey::Click => self.click,
            PropKey::Hover => self.hover,
            PropKey::Input => self.input,
        }
    }

    /// Whether `handle` is bound for one of the three keys.
    pub open spec fn spec_binds(self, handle: u64) -> bool {
        self.click == Some(handle) || self.hover == Some(handle) || self.input == Some(handle)
    }

    /// Whether `handle` is bound for one of the three keys.
    #[verifier::when_used_as_spec(spec_binds)]
    pub fn binds(self, handle: u64) -> (b: bool)
        ensures
            b == self.spec_binds(handle),
    {
        let click = match self.click {
            Some(h) => h == handle,
            None => false,
        };
        let hover = match self.hover {
            Some(h) => h == handle,
            None => false,
        };
        let input = match self.input {
            Some(h) => h == handle,
            None => false,
        };
        click || hover || input
    }
}

/// The handle `h` alone, unless `after` still binds it or there is none.
pub open spec fn stale_one(h: Option<u64>, after: Events) -> Seq<u64> {
    match h {
        Some(x) => if after.spec_binds(x) {
            Seq::empty()
        } else {
            seq![x]
        },
        None => Seq::empty(),
    }
}

/// The handles that a patch has left without a binding: those of the
/// bindings before it, for click, hover and input in that order, and the one
/// it offered, each unless the bindings after it hold it.
pub open spec fn stale_of(before: Events, after: Events, offered: Option<u64>) -> Seq<u64> {
    stale_one(before.click, after) + stale_one(before.hover, after) + stale_one(
        before.input,
        after,
    ) + stale_one(offered, after)
}

/// Appends `h` unless `after` still binds it or there is none.
fn push_if_stale(out: &mut Vec<u64>, h: Option<u64>, after: Events)
    ensures
        final(out)@ == old(out)@ + stale_one(h, after),
{
    match h {
        Some(x) => {
            if !after.binds(x) {
                out.push(x);
                assert(out@ =~= old(out)@ + seq![x]);
            } else {
                assert(out@ =~= old(out)@ + Seq::<u64>::empty());
            }
        },
        None => {
            assert(out@ =~= old(out)@ + Seq::<u64>::empty());
        },
    }
}

/// Names the handles that a patch has left without a binding, so that the
/// callbacks kept under them can be let go: a handle is named exactly when
/// the bindings before the patch held it, or the patch offered it, and the
/// bindings after the patch do not hold it.
pub fn stale_handles(before: Events, after: Events, offered: Option<u64>) -> (out: Vec<u64>)
    ensures
        out@ == stale_of(before, after, offered),
        forall|h: u64|
            out@.contains(h) <==> (before.spec_binds(h) || offered == Some(h)) && !after.spec_binds(
                h,
            ),
{
    let mut out: Vec<u64> = Vec::new();
    push_if_stale(&mut out, before.click, after);
    push_if_stale(&mut out, before.hover, after);
    push_if_stale(&mut out, before.input, after);
    push_if_stale(&mut out, offered, after);
    proof {
        let a = stale_one(before.click, after);
        let b = stale_one(before.hover, after);
        let c = stale_one(before.input, after);
        let d = stale_one(offered, after);
        assert(out@ =~= a + b + c + d);
        assert forall|h: u64|
            out@.contains(h) <==> (before.spec_binds(h) || offered == Some(h)) && !after.spec_binds(
                h,
            ) by {
            if (before.spec_binds(h) || offered == Some(h)) && !after.spec_binds(h) {
                if before.click == Some(h) {
                    assert(a[0] == h);
                    assert(out@[0] == h);
                } else if before.hover == Some(h) {
                    assert(b[0] == h);
                    assert(out@[a.len() as int] == h);
                } else if before.input == Some(h) {
                    assert(c[0] == h);
                    assert(out@[(a.len() + b.len()) as int] == h);
                } else {
                    assert(d[0] == h);
                    assert(out@[(a.len() + b.len() + c.len()) as int] == h);
                }
            }
            if out@.contains(h) {
                let i = choose|i: int| 0 <= i < out@.len() && out@[i] == h;
                if i < a.len() {
                    assert(a[i] == h);
                } else if i < a.len() + b.len() {
                    assert(b[i - a.len()] == h);
                } else if i < a.len() + b.len() + c.len() {
                    assert(c[i - a.len() - b.len()] == h);
                } else {
                    assert(d[i - a.len() - b.len() - c.len()] == h);
                }
            }
        }
    }
    out
}

} // verus!
