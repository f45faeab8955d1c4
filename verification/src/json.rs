//! The structured-document renderer: maps every node to a JSON object
//! `{"move": {"san_plus": …, "frequency": …}, "children": […]}` and renders
//! the empty tree as the explicit JSON `null`, so that "no games ingested"
//! stays distinguishable from "a single node with no continuations". Both a
//! compact and a two-space-indented variant are provided.

use vstd::prelude::*;

use crate::chess_move::MoveV;
use crate::text::{chars_to_string, push_str_chars, push_u64, spec_dec};
use crate::tree::Tree;

verus! {

/// Lowercase hexadecimal digit characters.
pub open spec fn spec_hex_digit(d: int) -> char
    recommends
        0 <= d <= 15,
{
    if d == 0 {
        '0'
    } else if d == 1 {
        '1'
    } else if d == 2 {
        '2'
    } else if d == 3 {
        '3'
    } else if d == 4 {
        '4'
    } else if d == 5 {
        '5'
    } else if d == 6 {
        '6'
    } else if d == 7 {
        '7'
    } else if d == 8 {
        '8'
    } else if d == 9 {
        '9'
    } else if d == 10 {
        'a'
    } else if d == 11 {
        'b'
    } else if d == 12 {
        'c'
    } else if d == 13 {
        'd'
    } else if d == 14 {
        'e'
    } else {
        'f'
    }
}

/// How one character appears inside a JSON string literal: quotes and
/// backslashes are escaped, the common control characters get their short
/// escapes, any other control character becomes a `\u00XX` escape, and
/// everything else stands for itself.
pub open spec fn json_escape_char(c: char) -> Seq<char> {
    if c == '"' {
        seq!['\\', '"']
    } else if c == '\\' {
        seq!['\\', '\\']
    } else if c == '\u{0008}' {
        seq!['\\', 'b']
    } else if c == '\u{000c}' {
        seq!['\\', 'f']
    } else if c == '\n' {
        seq!['\\', 'n']
    } else if c == '\r' {
        seq!['\\', 'r']
    } else if c == '\t' {
        seq!['\\', 't']
    } else if (c as int) < 32 {
        seq!['\\', 'u', '0', '0', spec_hex_digit(c as int / 16), spec_hex_digit(c as int % 16)]
    } else {
        seq![c]
    }
}

/// The JSON string-literal body for a character sequence.
pub open spec fn json_escape(s: Seq<char>) -> Seq<char>
    decreases s.len(),
{
    if s.len() == 0 {
        Seq::empty()
    } else {
        json_escape(s.drop_last()) + json_escape_char(s.last())
    }
}

fn hex_digit_char(d: u32) -> (c: char)
    requires
        d <= 15,
    ensures
        c == spec_hex_digit(d as int),
{
    match d {
        0 => '0',
        1 => '1',
        2 => '2',
        3 => '3',
        4 => '4',
        5 => '5',
        6 => '6',
        7 => '7',
        8 => '8',
        9 => '9',
        10 => 'a',
        11 => 'b',
        12 => 'c',
        13 => 'd',
        14 => 'e',
        _ => 'f',
    }
}

/// Appends the JSON string-literal body of `s` to `out`.
fn push_json_escaped(out: &mut Vec<char>, s: &str)
    ensures
        final(out)@ == old(out)@ + json_escape(s@),
{
    let n = s.unicode_len();
    let mut i: usize = 0;
    while i < n
        invariant
            n == s@.len(),
            i <= n,
            out@ == old(out)@ + json_escape(s@.take(i as int)),
        decreases n - i,
    {
        let c = s.get_char(i);
        let ghost mid = out@;
        if c == '"' {
            out.push('\\');
            out.push('"');
        } else if c == '\\' {
            out.push('\\');
            out.push('\\');
        } else if c == '\u{0008}' {
            out.push('\\');
            out.push('b');
        } else if c == '\u{000c}' {
            out.push('\\');
            out.push('f');
        } else if c == '\n' {
            out.push('\\');
            out.push('n');
        } else if c == '\r' {
            out.push('\\');
            out.push('r');
        } else if c == '\t' {
            out.push('\\');
            out.push('t');
        } else {
            let u = c as u32;
            if u < 32 {
                out.push('\\');
                out.push('u');
                out.push('0');
                out.push('0');
                out.push(hex_digit_char(u / 16));
                out.push(hex_digit_char(u % 16));
            } else {
                out.push(c);
            }
        }
        proof {
            assert(out@ =~= mid + json_escape_char(s@[i as int]));
            assert(s@.take(i + 1 as int).drop_last() =~= s@.take(i as int));
            assert(s@.take(i + 1 as int).last() == s@[i as int]);
            assert(out@ =~= old(out)@ + json_escape(s@.take(i + 1 as int)));
        }
        i += 1;
    }
    proof {
        assert(s@.take(n as int) =~= s@);
    }
}

/// The compact JSON object for one move value.
pub open spec fn spec_json_move(m: MoveV) -> Seq<char> {
    "{\"san_plus\":\""@ + json_escape(m.san) + "\",\"frequency\":"@ + spec_dec(m.frequency as int)
        + "}"@
}

/// Appends the compact JSON object for the move of node `idx`.
fn push_json_move(out: &mut Vec<char>, t: &Tree, idx: usize)
    requires
        idx < t.len(),
    ensures
        final(out)@ == old(out)@ + spec_json_move(t.val(idx as int)),
{
    push_str_chars(out, "{\"san_plus\":\"");
    push_json_escaped(out, t.arena[idx].val.san_plus.as_str());
    push_str_chars(out, "\",\"frequency\":");
    push_u64(out, t.arena[idx].val.frequency);
    push_str_chars(out, "}");
    proof {
        assert(out@ =~= old(out)@ + spec_json_move(t.val(idx as int)));
    }
}

/// The indented JSON object for one move value, rendered at indentation
/// `ind`.
pub open spec fn spec_json_move_pretty(m: MoveV, ind: Seq<char>) -> Seq<char> {
    "{\n"@ + ind + "  \"san_plus\": \""@ + json_escape(m.san) + "\",\n"@ + ind
        + "  \"frequency\": "@ + spec_dec(m.frequency as int) + "\n"@ + ind + "}"@
}

/// Appends the indented JSON object for the move of node `idx`.
fn push_json_move_pretty(out: &mut Vec<char>, t: &Tree, idx: usize, ind: &Vec<char>)
    requires
        idx < t.len(),
    ensures
        final(out)@ == old(out)@ + spec_json_move_pretty(t.val(idx as int), ind@),
{
    push_str_chars(out, "{\n");
    out.append(&mut ind.clone());
    push_str_chars(out, "  \"san_plus\": \"");
    push_json_escaped(out, t.arena[idx].val.san_plus.as_str());
    push_str_chars(out, "\",\n");
    out.append(&mut ind.clone());
    push_str_chars(out, "  \"frequency\": ");
    push_u64(out, t.arena[idx].val.frequency);
    push_str_chars(out, "\n");
    out.append(&mut ind.clone());
    push_str_chars(out, "}");
    proof {
        assert(out@ =~= old(out)@ + spec_json_move_pretty(t.val(idx as int), ind@));
    }
}

impl Tree {
    /// The compact JSON text of the subtree rooted at `idx`.
    pub open spec fn spec_json_rec(self, idx: int) -> Seq<char>
        decreases self.len() - idx, 1int, 0int,
    {
        if 0 <= idx < self.len() {
            "{\"move\":"@ + spec_json_move(self.val(idx)) + ",\"children\":["@
                + self.spec_json_children(idx, 0) + "]}"@
        } else {
            Seq::empty()
        }
    }

    /// The compact JSON texts of the children of `idx` from position `j`
    /// on, separated by commas.
    pub open spec fn spec_json_children(self, idx: int, j: int) -> Seq<char>
        decreases self.len() - idx, 0int, self.children_of(idx).len() - j,
    {
        if 0 <= idx < self.len() && 0 <= j < self.children_of(idx).len() {
            let c = self.children_of(idx)[j] as int;
            (if j > 0 {
                ","@
            } else {
                Seq::empty()
            }) + (if idx < c < self.len() {
                self.spec_json_rec(c)
            } else {
                Seq::empty()
            }) + self.spec_json_children(idx, j + 1)
        } else {
            Seq::empty()
        }
    }

    /// The compact JSON document of the whole tree: `null` when empty.
    pub open spec fn spec_json(self) -> Seq<char> {
        if self.len() == 0 {
            "null"@
        } else {
            self.spec_json_rec(0)
        }
    }

    /// Appends the compact JSON text of the subtree rooted at `idx`.
    fn json_rec(&self, idx: usize, out: &mut Vec<char>)
        requires
            self.wf(),
            idx < self.len(),
        ensures
            final(out)@ == old(out)@ + self.spec_json_rec(idx as int),
        decreases self.len() - idx,
    {
        let ghost entry = out@;
        push_str_chars(out, "{\"move\":");
        push_json_move(out, self, idx);
        push_str_chars(out, ",\"children\":[");
        let ghost base = out@;
        let m = self.arena[idx].children.len();
        let mut j: usize = 0;
        while j < m
            invariant
                self.wf(),
                idx < self.len(),
                m == self.children_of(idx as int).len(),
                j <= m,
                out@ + self.spec_json_children(idx as int, j as int) == base
                    + self.spec_json_children(idx as int, 0),
            decreases m - j,
        {
            proof {
                assert(self.wf_node(idx as int));
            }
            let ghost out0 = out@;
            if j > 0 {
                push_str_chars(out, ",");
            }
            let c = self.arena[idx].children[j];
            self.json_rec(c, out);
            proof {
                assert(self.children_of(idx as int)[j as int] == c);
                assert(idx < c < self.len());
                assert(out@ =~= out0 + (if j > 0 {
                    ","@
                } else {
                    Seq::<char>::empty()
                }) + self.spec_json_rec(c as int));
                assert(out@ + self.spec_json_children(idx as int, j as int + 1) =~= out0
                    + self.spec_json_children(idx as int, j as int));
            }
            j += 1;
        }
        proof {
            assert(self.spec_json_children(idx as int, m as int) =~= Seq::<char>::empty());
        }
        push_str_chars(out, "]}");
        proof {
            assert(out@ =~= entry + self.spec_json_rec(idx as int));
        }
    }

    /// The indented JSON text of the subtree rooted at `idx`, rendered at
    /// indentation `ind` with two more spaces per nesting level.
    pub open spec fn spec_json_rec_pretty(self, idx: int, ind: Seq<char>) -> Seq<char>
        decreases self.len() - idx, 1int, 0int,
    {
        if 0 <= idx < self.len() {
            "{\n"@ + ind + "  \"move\": "@ + spec_json_move_pretty(self.val(idx), ind + "  "@)
                + ",\n"@ + ind + "  \"children\": "@ + (if self.children_of(idx).len() == 0 {
                "[]"@
            } else {
                "[\n"@ + self.spec_json_children_pretty(idx, 0, ind + "    "@) + "\n"@ + ind
                    + "  ]"@
            }) + "\n"@ + ind + "}"@
        } else {
            Seq::empty()
        }
    }

    /// The indented JSON texts of the children of `idx` from position `j`
    /// on, each on its own indentation, separated by `",\n"`.
    pub open spec fn spec_json_children_pretty(self, idx: int, j: int, ind: Seq<char>) -> Seq<char>
        decreases self.len() - idx, 0int, self.children_of(idx).len() - j,
    {
        if 0 <= idx < self.len() && 0 <= j < self.children_of(idx).len() {
            let c = self.children_of(idx)[j] as int;
            (if j > 0 {
                ",\n"@
            } else {
                Seq::empty()
            }) + ind + (if idx < c < self.len() {
                self.spec_json_rec_pretty(c, ind)
            } else {
                Seq::empty()
            }) + self.spec_json_children_pretty(idx, j + 1, ind)
        } else {
            Seq::empty()
        }
    }

    /// The indented JSON document of the whole tree: `null` when empty.
    pub open spec fn spec_json_pretty(self) -> Seq<char> {
        if self.len() == 0 {
            "null"@
        } else {
            self.spec_json_rec_pretty(0, Seq::empty())
        }
    }

    /// Appends the indented JSON text of the subtree rooted at `idx`.
    #[verifier::rlimit(50)]
    fn json_pretty_rec(&self, idx: usize, out: &mut Vec<char>, ind: &Vec<char>)
        requires
            self.wf(),
            idx < self.len(),
        ensures
            final(out)@ == old(out)@ + self.spec_json_rec_pretty(idx as int, ind@),
        decreases self.len() - idx,
    {
        let ghost entry = out@;
        let mut ind2: Vec<char> = ind.clone();
        proof {
            assert(ind2@ =~= ind@);
        }
        push_str_chars(&mut ind2, "  ");
        let mut ind4: Vec<char> = ind.clone();
        proof {
            assert(ind4@ =~= ind@);
        }
        push_str_chars(&mut ind4, "    ");
        push_str_chars(out, "{\n");
        out.append(&mut ind.clone());
        push_str_chars(out, "  \"move\": ");
        push_json_move_pretty(out, self, idx, &ind2);
        push_str_chars(out, ",\n");
        out.append(&mut ind.clone());
        push_str_chars(out, "  \"children\": ");
        let m = self.arena[idx].children.len();
        if m == 0 {
            push_str_chars(out, "[]");
        } else {
            push_str_chars(out, "[\n");
            let ghost base = out@;
            let mut j: usize = 0;
            while j < m
                invariant
                    self.wf(),
                    idx < self.len(),
                    m == self.children_of(idx as int).len(),
                    j <= m,
                    ind4@ == ind@ + "    "@,
                    out@ + self.spec_json_children_pretty(idx as int, j as int, ind4@) == base
                        + self.spec_json_children_pretty(idx as int, 0, ind4@),
                decreases m - j,
            {
                proof {
                    assert(self.wf_node(idx as int));
                }
                let ghost out0 = out@;
                if j > 0 {
                    push_str_chars(out, ",\n");
                }
                out.append(&mut ind4.clone());
                let c = self.arena[idx].children[j];
                self.json_pretty_rec(c, out, &ind4);
                proof {
                    assert(self.children_of(idx as int)[j as int] == c);
                    assert(idx < c < self.len());
                    assert(out@ =~= out0 + (if j > 0 {
                        ",\n"@
                    } else {
                        Seq::<char>::empty()
                    }) + ind4@ + self.spec_json_rec_pretty(c as int, ind4@));
                    assert(out@ + self.spec_json_children_pretty(idx as int, j as int + 1, ind4@)
                        =~= out0 + self.spec_json_children_pretty(idx as int, j as int, ind4@));
                }
                j += 1;
            }
            proof {
                assert(self.spec_json_children_pretty(idx as int, m as int, ind4@)
                    =~= Seq::<char>::empty());
            }
            push_str_chars(out, "\n");
            out.append(&mut ind.clone());
            push_str_chars(out, "  ]");
        }
        push_str_chars(out, "\n");
        out.append(&mut ind.clone());
        push_str_chars(out, "}");
        proof {
            assert(out@ =~= entry + self.spec_json_rec_pretty(idx as int, ind@));
        }
    }

    /// Renders the tree as an indented JSON document (two spaces per
    /// nesting level).
    pub fn to_json_pretty(&self) -> (r: String)
        requires
            self.wf(),
        ensures
            r@ == self.spec_json_pretty(),
    {
        let mut out: Vec<char> = Vec::new();
        match self.get_root() {
            None => {
                push_str_chars(&mut out, "null");
            },
            Some(idx) => {
                let ind: Vec<char> = Vec::new();
                self.json_pretty_rec(idx, &mut out, &ind);
                proof {
                    assert(ind@ =~= Seq::<char>::empty());
                    assert(out@ =~= self.spec_json_pretty());
                }
            },
        }
        chars_to_string(&out)
    }

    /// Renders the tree as a compact JSON document.
    pub fn to_json(&self) -> (r: String)
        requires
            self.wf(),
        ensures
            r@ == self.spec_json(),
    {
        let mut out: Vec<char> = Vec::new();
        match self.get_root() {
            None => {
                push_str_chars(&mut out, "null");
            },
            Some(idx) => {
                self.json_rec(idx, &mut out);
                proof {
                    assert(out@ =~= self.spec_json());
                }
            },
        }
        chars_to_string(&out)
    }
}

} // verus!
