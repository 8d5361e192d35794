//! Refspec strings of the shape `[+]src[:dst]`.

use crate::text::{
    concat, find_char, first_index, first_where, lemma_first_index, lemma_first_where_is,
};
use vstd::prelude::*;
use vstd::string::*;
use vstd::utf8::encode_utf8;

verus! {

/// Whether a refspec string starts with the force marker `+`.
pub open spec fn spec_is_forced(s: Seq<char>) -> bool {
    s.len() > 0 && s[0] == '+'
}

/// A refspec string without its force marker.
pub open spec fn spec_unforced(s: Seq<char>) -> Seq<char> {
    if spec_is_forced(s) {
        s.subrange(1, s.len() as int)
    } else {
        s
    }
}

/// The text of a refspec: its marker, where it is forced, and the raw refspec.
pub open spec fn spec_render(force: bool, refspec: Seq<char>) -> Seq<char> {
    if force {
        seq!['+'] + refspec
    } else {
        refspec
    }
}

/// The source of a raw refspec: what stands before its first `:`.
pub open spec fn spec_src(refspec: Seq<char>) -> Seq<char> {
    refspec.subrange(0, first_index(refspec, ':'))
}

/// The destination of a raw refspec: what follows its first `:`, where it has one.
pub open spec fn spec_dest(refspec: Seq<char>) -> Option<Seq<char>> {
    if refspec.contains(':') {
        Some(refspec.subrange(first_index(refspec, ':') + 1, refspec.len() as int))
    } else {
        None
    }
}

/// The forced form of a refspec string.
pub open spec fn spec_as_forced(s: Seq<char>) -> Seq<char> {
    spec_render(true, spec_unforced(s))
}

/// The position of the first `:` among the bytes of a raw refspec, where it has one.
pub open spec fn spec_separator_index(refspec: Seq<char>) -> Option<int> {
    let bytes = encode_utf8(refspec);
    let i = first_where(bytes, |b: u8| b == 0x3a);
    if i < bytes.len() {
        Some(i)
    } else {
        None
    }
}

/// A refspec split into its force flag and the rest.
#[derive(Clone, Debug, PartialEq, Eq)]
pub struct RefspecStr {
    force: bool,
    refspec: String,
}

/// What a `RefspecStr` stands for.
pub ghost struct RefspecView {
    pub force: bool,
    pub refspec: Seq<char>,
}

impl View for RefspecStr {
    type V = RefspecView;

    closed spec fn view(&self) -> RefspecView {
        RefspecView { force: self.force, refspec: self.refspec@ }
    }
}

impl RefspecStr {
    /// Splits a leading `+` from the text of a refspec.
    pub fn from_str(refspec: &str) -> (r: RefspecStr)
        ensures
            r@.force == spec_is_forced(refspec@),
            r@.refspec == spec_unforced(refspec@),
    {
        let n = refspec.unicode_len();
        let force = n > 0 && refspec.get_char(0) == '+';
        let rest = if force {
            refspec.substring_char(1, n).to_string()
        } else {
            refspec.to_string()
        };
        RefspecStr { force: force, refspec: rest }
    }

    /// Whether the force flag is set.
    pub fn force(&self) -> (r: bool)
        ensures
            r == self@.force,
    {
        self.force
    }

    /// The raw refspec, without the `+`.
    pub fn refspec(&self) -> (r: &str)
        ensures
            r@ == self@.refspec,
    {
        self.refspec.as_str()
    }

    /// Sets or clears the force flag; the raw refspec stays.
    pub fn set_force(&mut self, force: bool)
        ensures
            final(self)@.force == force,
            final(self)@.refspec == old(self)@.refspec,
    {
        self.force = force;
    }

    /// The text of the refspec, with a leading `+` where it is forced.
    pub fn to_string(&self) -> (r: String)
        ensures
            r@ == spec_render(self@.force, self@.refspec),
    {
        if self.force {
            proof {
                reveal_strlit("+");
                assert("+"@ =~= seq!['+']);
            }
            concat("+", self.refspec.as_str())
        } else {
            self.refspec.clone()
        }
    }

    /// The position of the first `:` of the raw refspec, counted in bytes.
    pub fn separator_index(&self) -> (r: Option<usize>)
        ensures
            match r {
                Some(i) => spec_separator_index(self@.refspec) == Some(i as int),
                None => spec_separator_index(self@.refspec) is None,
            },
    {
        let bytes = self.refspec.as_str().as_bytes();
        let ghost p = |b: u8| b == 0x3a;
        let mut i: usize = 0;
        while i < bytes.len()
            invariant
                i <= bytes@.len(),
                bytes@ == encode_utf8(self@.refspec),
                p == |b: u8| b == 0x3a,
                forall|j: int| 0 <= j < i ==> !p(#[trigger] bytes@[j]),
            decreases bytes@.len() - i,
        {
            if bytes[i] == 0x3a {
                proof {
                    assert(p(bytes@[i as int]));
                    lemma_first_where_is(bytes@, p, i as int);
                }
                return Some(i);
            }
            i += 1;
        }
        proof {
            lemma_first_where_is(bytes@, p, bytes@.len() as int);
        }
        None
    }

    /// The source part of the refspec.
    pub fn src(&self) -> (r: String)
        ensures
            r@ == spec_src(self@.refspec),
    {
        proof {
            lemma_first_index(self@.refspec, ':');
        }
        match find_char(self.refspec.as_str(), ':') {
            Some(index) => self.refspec.as_str().substring_char(0, index).to_string(),
            None => {
                assert(self@.refspec.subrange(0, self@.refspec.len() as int) =~= self@.refspec);
                self.refspec.clone()
            },
        }
    }

    /// The destination part of the refspec, where it has one.
    pub fn dest(&self) -> (r: Option<String>)
        ensures
            r is Some <==> spec_dest(self@.refspec) is Some,
            r matches Some(d) ==> d@ == spec_dest(self@.refspec).unwrap(),
    {
        proof {
            lemma_first_index(self@.refspec, ':');
        }
        match find_char(self.refspec.as_str(), ':') {
            Some(index) => {
                let n = self.refspec.as_str().unicode_len();
                Some(self.refspec.as_str().substring_char(index + 1, n).to_string())
            },
            None => None,
        }
    }

    /// The forced form of the text of a refspec: it gains a `+` unless it has one.
    pub fn as_forced(refspec: &str) -> (r: String)
        ensures
            r@ == spec_as_forced(refspec@),
    {
        let mut refspec = Self::from_str(refspec);
        refspec.set_force(true);
        refspec.to_string()
    }
}

/// Rendering what was parsed gives the text back.
pub proof fn lemma_render_parse(s: Seq<char>)
    ensures
        spec_render(spec_is_forced(s), spec_unforced(s)) == s,
{
    if spec_is_forced(s) {
        assert(seq!['+'] + s.subrange(1, s.len() as int) =~= s);
    }
}

/// Parsing what was rendered gives the fields back, for a raw refspec that does not itself
/// start with `+`.
pub proof fn lemma_parse_render(force: bool, refspec: Seq<char>)
    requires
        !spec_is_forced(refspec),
    ensures
        spec_is_forced(spec_render(force, refspec)) == force,
        spec_unforced(spec_render(force, refspec)) == refspec,
{
    if force {
        let t = seq!['+'] + refspec;
        assert(t[0] == '+');
        assert(t.subrange(1, t.len() as int) =~= refspec);
    }
}

/// Forcing is idempotent, and a forced refspec parses as forced.
pub proof fn lemma_as_forced_idempotent(s: Seq<char>)
    ensures
        spec_as_forced(spec_as_forced(s)) == spec_as_forced(s),
        spec_is_forced(spec_as_forced(s)),
        spec_unforced(spec_as_forced(s)) == spec_unforced(s),
        spec_is_forced(s) ==> spec_as_forced(s) == s,
{
    let u = spec_unforced(s);
    let f = seq!['+'] + u;
    assert(f[0] == '+');
    assert(f.subrange(1, f.len() as int) =~= u);
    lemma_render_parse(s);
}

} // verus!
