//! A small sample target: a user list under `/users` and a single user
//! looked up by numeric identifier under `/users/<id>`.  It shows what an
//! application owes the target contract and gives the tests something
//! concrete to route to.

use vstd::prelude::*;
use crate::digits::{
    all_digit_chars,
    dec_chars,
    dec_to_u64,
    digits_val,
    is_canonical_dec,
    lemma_dec_chars_canonical,
    lemma_digits_slash_free,
    u64_to_dec,
};
use crate::path::{all_slash_free, slash_free};
use crate::target::Target;

verus! {

/// The characters of the fixed `users` path segment.
pub open spec fn users_seg() -> Seq<char> {
    seq!['u', 's', 'e', 'r', 's']
}

/// Where the sample application can be: the user list, or one user picked
/// by identifier.
#[derive(Clone, Copy, Debug, PartialEq, Eq, Structural)]
pub enum DemoTarget {
    Users,
    ViewUser(u64),
}

/// The fixed `users` segment as an owned string.
fn users_string() -> (s: String)
    ensures
        s@ == users_seg(),
{
    let s = String::from_str("users");
    proof {
        reveal_strlit("users");
        assert(s@ =~= users_seg());
    }
    s
}

/// The fixed `users` segment contains no slash.
proof fn lemma_users_seg_slash_free()
    ensures
        slash_free(users_seg()),
{
    if users_seg().contains('/') {
        let j = choose|j: int| 0 <= j < users_seg().len() && users_seg()[j] == '/';
        assert(users_seg()[0] == 'u');
        assert(users_seg()[1] == 's');
        assert(users_seg()[2] == 'e');
        assert(users_seg()[3] == 'r');
        assert(users_seg()[4] == 's');
    }
}

impl Target for DemoTarget {
    open spec fn parse_spec(segments: Seq<Seq<char>>) -> Option<DemoTarget> {
        if segments.len() == 1 && segments[0] == users_seg() {
            Some(DemoTarget::Users)
        } else if segments.len() == 2 && segments[0] == users_seg() && is_canonical_dec(
            segments[1],
        ) && digits_val(segments[1]) <= u64::MAX {
            Some(DemoTarget::ViewUser(digits_val(segments[1]) as u64))
        } else {
            None
        }
    }

    open spec fn render_spec(&self) -> Seq<Seq<char>> {
        match *self {
            DemoTarget::Users => seq![users_seg()],
            DemoTarget::ViewUser(n) => seq![users_seg(), dec_chars(n as nat)],
        }
    }

    proof fn lemma_render_wf(&self) {
        lemma_users_seg_slash_free();
        match *self {
            DemoTarget::Users => {
                assert(all_slash_free(self.render_spec())) by {
                    assert(self.render_spec()[0] == users_seg());
                }
            },
            DemoTarget::ViewUser(n) => {
                lemma_dec_chars_canonical(n as nat);
                lemma_digits_slash_free(dec_chars(n as nat));
                assert(all_slash_free(self.render_spec())) by {
                    assert(self.render_spec()[0] == users_seg());
                    assert(self.render_spec()[1] == dec_chars(n as nat));
                }
            },
        }
    }

    proof fn lemma_parse_render(&self) {
        match *self {
            DemoTarget::Users => {
                assert(self.render_spec()[0] == users_seg());
            },
            DemoTarget::ViewUser(n) => {
                lemma_dec_chars_canonical(n as nat);
                assert(self.render_spec()[0] == users_seg());
                assert(self.render_spec()[1] == dec_chars(n as nat));
            },
        }
    }

    fn parse_path(segments: &Vec<String>) -> (r: Option<DemoTarget>) {
        let ghost dv = segments.deep_view();
        let users = users_string();
        if segments.len() == 1 {
            proof {
                assert(dv[0] == segments@[0]@);
            }
            if segments[0] == users {
                Some(DemoTarget::Users)
            } else {
                None
            }
        } else if segments.len() == 2 {
            proof {
                assert(dv[0] == segments@[0]@);
                assert(dv[1] == segments@[1]@);
            }
            if segments[0] == users {
                match dec_to_u64(segments[1].as_str()) {
                    Some(v) => Some(DemoTarget::ViewUser(v)),
                    None => None,
                }
            } else {
                None
            }
        } else {
            None
        }
    }

    fn render_path(&self) -> (r: Vec<String>) {
        match self {
            DemoTarget::Users => {
                let mut v: Vec<String> = Vec::new();
                v.push(users_string());
                proof {
                    assert(v.deep_view() =~= self.render_spec());
                }
                v
            },
            DemoTarget::ViewUser(n) => {
                let mut v: Vec<String> = Vec::new();
                v.push(users_string());
                v.push(u64_to_dec(*n));
                proof {
                    assert(v.deep_view() =~= self.render_spec());
                }
                v
            },
        }
    }

    fn same(&self, other: &Self) -> (r: bool) {
        *self == *other
    }

    fn dup(&self) -> (r: Self) {
        *self
    }
}

} // verus!
