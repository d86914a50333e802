//! Human-readable rendering of a list of numbers, front to back, as
//! `element::element::...::End`, or the literal `Empty` for an empty
//! list.

use crate::list::List;
use vstd::prelude::*;
use vstd::string::StringExecFns;

verus! {

/// The character for a single decimal digit.
pub open spec fn digit_char(d: nat) -> char {
    if d == 0 {
        '0'
    } else if d == 1 {
        '1'
    } else if d == 2 {
        '2'
    } else if d == 3 {
        '3'
    } else if d == 4 {
        '4'
    } else if d == 5 {
        '5'
    } else if d == 6 {
        '6'
    } else if d == 7 {
        '7'
    } else if d == 8 {
        '8'
    } else {
        '9'
    }
}

/// The decimal digits of `n`, most significant first, without leading
/// zeros (a single `'0'` for zero).
pub open spec fn decimal_chars(n: nat) -> Seq<char>
    decreases n,
{
    if n < 10 {
        seq![digit_char(n)]
    } else {
        decimal_chars(n / 10) + seq![digit_char(n % 10)]
    }
}

/// The rendering of the elements of a non-empty chain: each element's
/// decimal digits followed by `::`, with the terminator `End` after
/// the last separator.
pub open spec fn rendered_items(s: Seq<u64>) -> Seq<char>
    decreases s.len(),
{
    if s.len() == 0 {
        "End"@
    } else {
        decimal_chars(s[0] as nat) + "::"@ + rendered_items(s.drop_first())
    }
}

/// The full rendering of a list of numbers: the literal `Empty` for an
/// empty list, and the `::`-separated elements with the `End`
/// terminator otherwise.
pub open spec fn rendered(s: Seq<u64>) -> Seq<char> {
    if s.len() == 0 {
        "Empty"@
    } else {
        rendered_items(s)
    }
}

/// The one-character string for a single decimal digit.
fn digit_str(d: u64) -> (r: &'static str)
    requires
        d < 10,
    ensures
        r@ == seq![digit_char(d as nat)],
{
    proof {
        reveal_strlit("0");
        reveal_strlit("1");
        reveal_strlit("2");
        reveal_strlit("3");
        reveal_strlit("4");
        reveal_strlit("5");
        reveal_strlit("6");
        reveal_strlit("7");
        reveal_strlit("8");
        reveal_strlit("9");
    }
    let r = if d == 0 {
        "0"
    } else if d == 1 {
        "1"
    } else if d == 2 {
        "2"
    } else if d == 3 {
        "3"
    } else if d == 4 {
        "4"
    } else if d == 5 {
        "5"
    } else if d == 6 {
        "6"
    } else if d == 7 {
        "7"
    } else if d == 8 {
        "8"
    } else {
        "9"
    };
    proof {
        assert(r@ =~= seq![digit_char(d as nat)]);
    }
    r
}

/// Appends the decimal digits of `n` to `out`.
fn append_decimal(out: &mut String, n: u64)
    ensures
        final(out)@ == old(out)@ + decimal_chars(n as nat),
    decreases n,
{
    if n >= 10 {
        append_decimal(out, n / 10);
        out.append(digit_str(n % 10));
        proof {
            assert(final(out)@ =~= old(out)@ + decimal_chars(n as nat));
        }
    } else {
        out.append(digit_str(n));
    }
}

impl List<u64> {
    /// Renders the list front to back as `element::element::...::End`,
    /// or the literal `Empty` when the list holds nothing.
    pub fn render(&self) -> (r: String)
        requires
            self.wf(),
        ensures
            r@ == rendered(self@),
    {
        let mut out = String::new();
        if self.is_empty() {
            out.append("Empty");
            proof {
                assert(out@ =~= rendered(self@));
            }
            return out;
        }
        let mut cur: &List<u64> = self;
        loop
            invariant
                cur.wf(),
                cur.head is Some,
                out@ + rendered_items(cur@) == rendered(self@),
            decreases cur@.len(),
        {
            proof {
                cur.lemma_empty_iff_no_head();
            }
            let h = match &cur.head {
                Some(v) => *v,
                None => 0,
            };
            append_decimal(&mut out, h);
            out.append("::");
            match &cur.tail {
                None => {
                    out.append("End");
                    proof {
                        assert(cur@ == seq![h]);
                        assert(cur@.drop_first().len() == 0);
                        assert(rendered_items(cur@.drop_first()) == "End"@);
                        assert(cur@[0] == h);
                        assert(rendered_items(cur@) == decimal_chars(h as nat) + "::"@ + "End"@);
                        assert(out@ =~= rendered(self@));
                    }
                    return out;
                },
                Some(t) => {
                    proof {
                        assert(cur@ == seq![h] + t.elems());
                        assert(t.elems() =~= cur@.drop_first());
                        assert(t.elems().len() > 0);
                        assert(rendered_items(cur@) == decimal_chars(h as nat) + "::"@
                            + rendered_items(t.elems()));
                        assert(out@ + rendered_items(t.elems()) =~= rendered(self@));
                    }
                    cur = &**t;
                },
            }
        }
    }
}

} // verus!
