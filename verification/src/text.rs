use vstd::prelude::*;
use vstd::string::StringExecFns;

verus! {

/// One logical line of a folded-stack report: a head label (thread), the
/// stack parts from outermost to innermost, and the line's weight (sample
/// count or span duration).
pub struct LineV {
    pub head: Seq<char>,
    pub parts: Seq<Seq<char>>,
    pub weight: u64,
}

pub open spec fn digit_char(d: nat) -> char {
    if d == 0 {
        '0'
    } else if d == 1 {
        '1'
    } else if d == 2 {
        '2'
    } else if d == 3 {
        '3'
    } else if d == 4 {
        '4'
    } else if d == 5 {
        '5'
    } else if d == 6 {
        '6'
    } else if d == 7 {
        '7'
    } else if d == 8 {
        '8'
    } else {
        '9'
    }
}

/// The decimal digit string of `n`, most significant digit first.
pub open spec fn dec_digits(n: nat) -> Seq<char>
    decreases n,
{
    if n < 10 {
        seq![digit_char(n)]
    } else {
        dec_digits(n / 10).push(digit_char(n % 10))
    }
}

/// The stack parts joined by `;`, without a trailing separator.
pub open spec fn join_semi(parts: Seq<Seq<char>>) -> Seq<char>
    decreases parts.len(),
{
    if parts.len() == 0 {
        Seq::empty()
    } else if parts.len() == 1 {
        parts[0]
    } else {
        join_semi(parts.drop_last()) + seq![';'] + parts.last()
    }
}

/// The exact text of one folded line without its line break:
/// `<head>;<outer>;...;<inner> <weight>`.
pub open spec fn line_bare(l: LineV) -> Seq<char> {
    l.head + seq![';'] + join_semi(l.parts) + seq![' '] + dec_digits(l.weight as nat)
}

/// The exact text of one folded line: `line_bare` followed by a newline.
pub open spec fn line_text(l: LineV) -> Seq<char> {
    line_bare(l) + seq!['\n']
}

/// The full folded report: the concatenation of one line per entry, in
/// entry order.
pub open spec fn folded_text(lines: Seq<LineV>) -> Seq<char>
    decreases lines.len(),
{
    if lines.len() == 0 {
        Seq::empty()
    } else {
        folded_text(lines.drop_last()) + line_text(lines.last())
    }
}

/// The sum of the weights that the lines of a folded report carry.
pub open spec fn sum_weights(lines: Seq<LineV>) -> int
    decreases lines.len(),
{
    if lines.len() == 0 {
        0
    } else {
        sum_weights(lines.drop_last()) + lines.last().weight
    }
}

fn digit_str(d: u64) -> (r: &'static str)
    requires
        d < 10,
    ensures
        r@ == seq![digit_char(d as nat)],
{
    if d == 0 {
        proof {
            reveal_strlit("0");
            assert("0"@ =~= seq![digit_char(0)]);
        }
        "0"
    } else if d == 1 {
        proof {
            reveal_strlit("1");
            assert("1"@ =~= seq![digit_char(1)]);
        }
        "1"
    } else if d == 2 {
        proof {
            reveal_strlit("2");
            assert("2"@ =~= seq![digit_char(2)]);
        }
        "2"
    } else if d == 3 {
        proof {
            reveal_strlit("3");
            assert("3"@ =~= seq![digit_char(3)]);
        }
        "3"
    } else if d == 4 {
        proof {
            reveal_strlit("4");
            assert("4"@ =~= seq![digit_char(4)]);
        }
        "4"
    } else if d == 5 {
        proof {
            reveal_strlit("5");
            assert("5"@ =~= seq![digit_char(5)]);
        }
        "5"
    } else if d == 6 {
        proof {
            reveal_strlit("6");
            assert("6"@ =~= seq![digit_char(6)]);
        }
        "6"
    } else if d == 7 {
        proof {
            reveal_strlit("7");
            assert("7"@ =~= seq![digit_char(7)]);
        }
        "7"
    } else if d == 8 {
        proof {
            reveal_strlit("8");
            assert("8"@ =~= seq![digit_char(8)]);
        }
        "8"
    } else {
        proof {
            reveal_strlit("9");
            assert("9"@ =~= seq![digit_char(9)]);
        }
        "9"
    }
}

/// Renders `n` in decimal, most significant digit first.
pub fn u64_to_string(n: u64) -> (r: String)
    ensures
        r@ == dec_digits(n as nat),
    decreases n,
{
    if n < 10 {
        let d = digit_str(n);
        let mut r = String::new();
        r.append(d);
        proof {
            assert(r@ =~= dec_digits(n as nat));
        }
        r
    } else {
        let mut r = u64_to_string(n / 10);
        r.append(digit_str(n % 10));
        proof {
            assert(r@ =~= dec_digits(n as nat));
        }
        r
    }
}

/// Appends the folded line for (`head`, `parts`, `weight`) to `out`,
/// without a line break.
pub fn append_line_bare(out: &mut String, head: &String, parts: &Vec<String>, weight: u64)
    requires
        parts.len() >= 1,
    ensures
        final(out)@ == old(out)@ + line_bare(
            LineV { head: head@, parts: parts.deep_view(), weight },
        ),
{
    let ghost base: Seq<char> = out@;
    let ghost pv: Seq<Seq<char>> = parts.deep_view();
    out.append(head.as_str());
    out.append(";");
    proof {
        reveal_strlit(";");
        assert(";"@ =~= seq![';']);
    }
    out.append(parts[0].as_str());
    proof {
        assert(pv.take(1) =~= seq![pv[0]]);
        assert(join_semi(pv.take(1)) == pv[0]);
        assert(out@ =~= base + head@ + seq![';'] + join_semi(pv.take(1)));
    }
    let n = parts.len();
    let mut j: usize = 1;
    while j < n
        invariant
            1 <= j <= n,
            n == parts.len(),
            pv == parts.deep_view(),
            out@ == base + head@ + seq![';'] + join_semi(pv.take(j as int)),
        decreases n - j,
    {
        out.append(";");
        out.append(parts[j].as_str());
        proof {
            reveal_strlit(";");
            assert(";"@ =~= seq![';']);
            assert(pv.take(j + 1).drop_last() =~= pv.take(j as int));
            assert(pv.take(j + 1).last() == pv[j as int]);
            assert(join_semi(pv.take(j + 1)) == join_semi(pv.take(j as int)) + seq![';']
                + pv[j as int]);
            assert(out@ =~= base + head@ + seq![';'] + join_semi(pv.take(j + 1)));
        }
        j = j + 1;
    }
    out.append(" ");
    let w = u64_to_string(weight);
    out.append(w.as_str());
    proof {
        reveal_strlit(" ");
        assert(" "@ =~= seq![' ']);
        assert(pv.take(n as int) =~= pv);
        assert(out@ =~= base + line_bare(LineV { head: head@, parts: pv, weight }));
    }
}

/// Appends the folded line for (`head`, `parts`, `weight`) to `out`,
/// with its line break.
pub fn append_line(out: &mut String, head: &String, parts: &Vec<String>, weight: u64)
    requires
        parts.len() >= 1,
    ensures
        final(out)@ == old(out)@ + line_text(
            LineV { head: head@, parts: parts.deep_view(), weight },
        ),
{
    append_line_bare(out, head, parts, weight);
    out.append("\n");
    proof {
        reveal_strlit("\n");
        assert("\n"@ =~= seq!['\n']);
        assert(out@ =~= old(out)@ + line_text(
            LineV { head: head@, parts: parts.deep_view(), weight },
        ));
    }
}

} // verus!
