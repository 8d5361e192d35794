//! How deeply a TOML text is nested, read off its bytes without parsing it.
//!
//! The bytes are taken as the tokens of TOML are: a comment runs to the end of its line, a
//! string runs to its closing quote, and only what stands outside of both counts. Brackets
//! and braces open and close levels. The dots of a dotted key are levels too: those of a
//! table header stand above all that follows the header, those of a key above its value.

use vstd::prelude::*;
use vstd::string::*;

verus! {

/// What the bytes at hand are part of.
#[derive(Clone, Copy, Debug, PartialEq, Eq, Structural)]
pub enum Mode {
    /// Neither a comment nor a string.
    Plain,
    /// A comment, up to the end of the line.
    Comment,
    /// A string in double quotes on one line.
    Basic,
    /// A string in single quotes on one line.
    Literal,
    /// A string in three double quotes.
    BasicMulti,
    /// A string in three single quotes.
    LiteralMulti,
}

/// Where the reading of a text stands.
pub ghost struct Scan {
    /// What the bytes at hand are part of.
    pub mode: Mode,
    /// The depth that each open bracket or brace was opened at, outermost first.
    pub saved: Seq<nat>,
    /// The open brackets and braces, with the dots of the keys that they are values of.
    pub depth: nat,
    /// The dots of the key or header at hand.
    pub dots: nat,
    /// The dots of the table header that was last closed.
    pub head: nat,
    /// Whether the line at hand has come to its `=`.
    pub assigned: bool,
    /// Whether the bytes at hand are in the brackets of a table header.
    pub header: bool,
}

/// Where the reading of a text starts.
pub open spec fn start() -> Scan {
    Scan {
        mode: Mode::Plain,
        saved: Seq::empty(),
        depth: 0,
        dots: 0,
        head: 0,
        assigned: false,
        header: false,
    }
}

/// How many levels are open where the reading stands. A table header stands for itself;
/// anything else stands below the header that was last closed.
pub open spec fn level(s: Scan) -> nat {
    if s.header {
        s.depth + s.dots
    } else {
        s.depth + s.dots + s.head
    }
}

/// The byte at a position; zero behind the end.
pub open spec fn byte_at(bytes: Seq<u8>, i: int) -> u8 {
    if 0 <= i < bytes.len() {
        bytes[i]
    } else {
        0
    }
}

/// How many times the byte `q` stands at position `i` and behind it, up to five times.
pub open spec fn run(bytes: Seq<u8>, i: int, q: u8) -> int {
    if byte_at(bytes, i) != q {
        0
    } else if byte_at(bytes, i + 1) != q {
        1
    } else if byte_at(bytes, i + 2) != q {
        2
    } else if byte_at(bytes, i + 3) != q {
        3
    } else if byte_at(bytes, i + 4) != q {
        4
    } else {
        5
    }
}

/// The position behind an escaped byte.
pub open spec fn skip_escape(bytes: Seq<u8>, i: int) -> int {
    if i + 2 <= bytes.len() {
        i + 2
    } else {
        bytes.len() as int
    }
}

/// The reading after a quote outside of strings: three quotes open a string of several
/// lines, two are an empty string, one opens a string on one line.
pub open spec fn open_string(s: Scan, bytes: Seq<u8>, i: int, q: u8, one: Mode, multi: Mode) -> (
    Scan,
    int,
) {
    if run(bytes, i, q) >= 3 {
        (Scan { mode: multi, ..s }, i + 3)
    } else if run(bytes, i, q) == 2 {
        (s, i + 2)
    } else {
        (Scan { mode: one, ..s }, i + 1)
    }
}

/// The reading after a quote in a string of several lines: three quotes or more close the
/// string, which takes up to five of them; fewer are part of the string.
pub open spec fn close_multi(s: Scan, bytes: Seq<u8>, i: int, q: u8) -> (Scan, int) {
    if run(bytes, i, q) >= 3 {
        (Scan { mode: Mode::Plain, ..s }, i + run(bytes, i, q))
    } else {
        (s, i + run(bytes, i, q))
    }
}

/// The reading after a byte outside of comments and strings.
pub open spec fn step_plain(s: Scan, bytes: Seq<u8>, i: int) -> (Scan, int) {
    let b = bytes[i];
    if b == 0x0a {
        (Scan { dots: 0, assigned: s.assigned && s.saved.len() > 0, ..s }, i + 1)
    } else if b == 0x23 {
        (Scan { mode: Mode::Comment, ..s }, i + 1)
    } else if b == 0x22 {
        open_string(s, bytes, i, b, Mode::Basic, Mode::BasicMulti)
    } else if b == 0x27 {
        open_string(s, bytes, i, b, Mode::Literal, Mode::LiteralMulti)
    } else if b == 0x3d {
        (Scan { assigned: true, ..s }, i + 1)
    } else if b == 0x5b || b == 0x7b {
        (
            Scan {
                saved: s.saved.push(s.depth),
                depth: s.depth + s.dots + 1,
                dots: 0,
                header: s.header || (b == 0x5b && s.saved.len() == 0 && !s.assigned),
                ..s
            },
            i + 1,
        )
    } else if b == 0x5d || b == 0x7d {
        if s.saved.len() == 0 {
            (s, i + 1)
        } else if s.header && s.saved.len() == 1 {
            (
                Scan {
                    saved: s.saved.drop_last(),
                    depth: s.saved.last(),
                    dots: 0,
                    head: s.dots,
                    header: false,
                    ..s
                },
                i + 1,
            )
        } else {
            (
                Scan {
                    saved: s.saved.drop_last(),
                    depth: s.saved.last(),
                    dots: if s.header {
                        s.dots
                    } else {
                        0
                    },
                    ..s
                },
                i + 1,
            )
        }
    } else if b == 0x2e {
        (Scan { dots: s.dots + 1, ..s }, i + 1)
    } else if b == 0x2c {
        (Scan { dots: 0, ..s }, i + 1)
    } else {
        (s, i + 1)
    }
}

/// The reading after the byte at position `i`, and the position to go on at.
pub open spec fn step(s: Scan, bytes: Seq<u8>, i: int) -> (Scan, int) {
    let b = bytes[i];
    match s.mode {
        Mode::Plain => step_plain(s, bytes, i),
        Mode::Comment => if b == 0x0a {
            (
                Scan {
                    mode: Mode::Plain,
                    dots: 0,
                    assigned: s.assigned && s.saved.len() > 0,
                    ..s
                },
                i + 1,
            )
        } else {
            (s, i + 1)
        },
        Mode::Basic => if b == 0x5c {
            (s, skip_escape(bytes, i))
        } else if b == 0x22 {
            (Scan { mode: Mode::Plain, ..s }, i + 1)
        } else {
            (s, i + 1)
        },
        Mode::Literal => if b == 0x27 {
            (Scan { mode: Mode::Plain, ..s }, i + 1)
        } else {
            (s, i + 1)
        },
        Mode::BasicMulti => if b == 0x5c {
            (s, skip_escape(bytes, i))
        } else if b == 0x22 {
            close_multi(s, bytes, i, b)
        } else {
            (s, i + 1)
        },
        Mode::LiteralMulti => if b == 0x27 {
            close_multi(s, bytes, i, b)
        } else {
            (s, i + 1)
        },
    }
}

/// The most levels that are open anywhere from position `i` on.
pub open spec fn deepest(bytes: Seq<u8>, i: int, s: Scan) -> nat
    decreases bytes.len() - i,
{
    if i < 0 || i >= bytes.len() || step(s, bytes, i).1 <= i {
        level(s)
    } else if level(s) >= deepest(bytes, step(s, bytes, i).1, step(s, bytes, i).0) {
        level(s)
    } else {
        deepest(bytes, step(s, bytes, i).1, step(s, bytes, i).0)
    }
}

/// How deeply a text is nested: the most levels that are open anywhere in it. A document
/// has at most four levels more than its text has.
pub open spec fn spec_nesting(bytes: Seq<u8>) -> nat {
    deepest(bytes, 0, start())
}

/// The most levels from a position on are at least those at the position and those
/// after its byte.
pub proof fn lemma_deepest_covers(bytes: Seq<u8>, i: int, s: Scan)
    requires
        0 <= i < bytes.len(),
        step(s, bytes, i).1 > i,
    ensures
        deepest(bytes, i, s) >= level(s),
        deepest(bytes, i, s) >= level(step(s, bytes, i).0),
{
    let t = step(s, bytes, i).0;
    let j = step(s, bytes, i).1;
    assert(deepest(bytes, j, t) >= level(t));
}

/// Whether the levels of a reading are more than `limit`.
fn over(depth: usize, dots: usize, head: usize, header: bool, limit: usize) -> (r: bool)
    ensures
        r == ((if header {
            depth + dots
        } else {
            depth + dots + head
        }) > limit),
{
    if depth > limit {
        return true;
    }
    let rest = limit - depth;
    if dots > rest {
        return true;
    }
    if header {
        false
    } else {
        head > rest - dots
    }
}

/// How many times the byte `q` stands at position `i` and behind it, up to five times.
fn run_of(bytes: &[u8], i: usize, q: u8) -> (r: usize)
    requires
        i < bytes@.len(),
        bytes@[i as int] == q,
        q != 0,
    ensures
        r == run(bytes@, i as int, q),
        1 <= r <= 5,
        i + r <= bytes@.len(),
{
    let n = bytes.len();
    if n - i < 2 || bytes[i + 1] != q {
        return 1;
    }
    if n - i < 3 || bytes[i + 2] != q {
        return 2;
    }
    if n - i < 4 || bytes[i + 3] != q {
        return 3;
    }
    if n - i < 5 || bytes[i + 4] != q {
        return 4;
    }
    5
}

/// Whether a text is nested no more deeply than `limit`.
pub fn nests_within(text: &str, limit: usize) -> (r: bool)
    ensures
        r == (spec_nesting(text.spec_bytes()) <= limit),
{
    let bytes = text.as_bytes();
    let n = bytes.len();
    let ghost all = bytes@;
    let mut mode = Mode::Plain;
    let mut saved: Vec<usize> = Vec::new();
    let mut depth: usize = 0;
    let mut dots: usize = 0;
    let mut head: usize = 0;
    let mut assigned = false;
    let mut header = false;
    let ghost mut s = start();
    let mut i: usize = 0;
    while i < n
        invariant
            i <= n,
            n == all.len(),
            all == bytes@,
            all == text.spec_bytes(),
            s.mode == mode,
            s.depth == depth,
            s.dots == dots,
            s.head == head,
            s.assigned == assigned,
            s.header == header,
            s.saved.len() == saved@.len(),
            forall|k: int| 0 <= k < saved@.len() ==> s.saved[k] == saved@[k],
            level(s) <= limit,
            (spec_nesting(all) <= limit) == (deepest(all, i as int, s) <= limit),
        decreases n - i,
    {
        let b = bytes[i];
        let ghost t = step(s, all, i as int).0;
        let ghost j = step(s, all, i as int).1;
        let mut next: usize = i + 1;
        match mode {
            Mode::Plain => {
                if b == 0x0a {
                    dots = 0;
                    assigned = assigned && saved.len() > 0;
                } else if b == 0x23 {
                    mode = Mode::Comment;
                } else if b == 0x22 || b == 0x27 {
                    let r = run_of(bytes, i, b);
                    if r >= 3 {
                        mode = if b == 0x22 {
                            Mode::BasicMulti
                        } else {
                            Mode::LiteralMulti
                        };
                        next = i + 3;
                    } else if r == 2 {
                        next = i + 2;
                    } else {
                        mode = if b == 0x22 {
                            Mode::Basic
                        } else {
                            Mode::Literal
                        };
                    }
                } else if b == 0x3d {
                    assigned = true;
                } else if b == 0x5b || b == 0x7b {
                    if limit - depth <= dots {
                        proof {
                            assert(level(t) > limit);
                            lemma_deepest_covers(all, i as int, s);
                        }
                        return false;
                    }
                    header = header || (b == 0x5b && saved.len() == 0 && !assigned);
                    saved.push(depth);
                    depth = depth + dots + 1;
                    dots = 0;
                } else if b == 0x5d || b == 0x7d {
                    if saved.len() > 0 {
                        let closes = header && saved.len() == 1;
                        match saved.pop() {
                            Some(d) => {
                                depth = d;
                            },
                            None => {},
                        }
                        if closes {
                            head = dots;
                            header = false;
                        }
                        if !header {
                            dots = 0;
                        }
                    }
                } else if b == 0x2e {
                    if limit - depth <= dots {
                        proof {
                            assert(level(t) > limit);
                            lemma_deepest_covers(all, i as int, s);
                        }
                        return false;
                    }
                    dots = dots + 1;
                } else if b == 0x2c {
                    dots = 0;
                }
            },
            Mode::Comment => {
                if b == 0x0a {
                    mode = Mode::Plain;
                    dots = 0;
                    assigned = assigned && saved.len() > 0;
                }
            },
            Mode::Basic => {
                if b == 0x5c {
                    next = if n - i >= 2 {
                        i + 2
                    } else {
                        n
                    };
                } else if b == 0x22 {
                    mode = Mode::Plain;
                }
            },
            Mode::Literal => {
                if b == 0x27 {
                    mode = Mode::Plain;
                }
            },
            Mode::BasicMulti => {
                if b == 0x5c {
                    next = if n - i >= 2 {
                        i + 2
                    } else {
                        n
                    };
                } else if b == 0x22 {
                    let r = run_of(bytes, i, b);
                    if r >= 3 {
                        mode = Mode::Plain;
                    }
                    next = i + r;
                }
            },
            Mode::LiteralMulti => {
                if b == 0x27 {
                    let r = run_of(bytes, i, b);
                    if r >= 3 {
                        mode = Mode::Plain;
                    }
                    next = i + r;
                }
            },
        }
        proof {
            assert(next == j);
            assert(t.mode == mode);
            assert(t.depth == depth);
            assert(t.dots == dots);
            assert(t.head == head);
            assert(t.assigned == assigned);
            assert(t.header == header);
            assert(t.saved.len() == saved@.len());
            assert forall|k: int| 0 <= k < saved@.len() implies t.saved[k] == saved@[k] by {}
        }
        if over(depth, dots, head, header, limit) {
            proof {
                assert(level(t) > limit);
                lemma_deepest_covers(all, i as int, s);
            }
            return false;
        }
        proof {
            s = t;
        }
        i = next;
    }
    true
}

} // verus!
