//! The three-line rendering of an error against the source text it came from.

use vstd::prelude::*;
use vstd::string::*;
use crate::errors::LoxError;
use crate::readers::{lemma_line_end_bounds, line_end};
use crate::text::{chars_of, decimal, i64_to_decimal, push_char};

verus! {

/// The index where line `n` (from zero) of `s` starts, or -1 where `s` has fewer lines.
pub open spec fn line_start(s: Seq<char>, n: nat) -> int
    decreases n,
{
    if n == 0 {
        0
    } else {
        let st = line_start(s, (n - 1) as nat);
        if st < 0 {
            -1
        } else {
            let e = line_end(s, st);
            if e >= s.len() {
                -1
            } else {
                e + 1
            }
        }
    }
}

pub proof fn lemma_line_start_bounds(s: Seq<char>, n: nat)
    ensures
        -1 <= line_start(s, n) <= s.len(),
    decreases n,
{
    if n > 0 {
        lemma_line_start_bounds(s, (n - 1) as nat);
        let st = line_start(s, (n - 1) as nat);
        if st >= 0 {
            lemma_line_end_bounds(s, st);
        }
    }
}

/// Line `n` of `s` without its line break and without one trailing carriage return;
/// empty where there is no such line.
pub open spec fn line_text(s: Seq<char>, n: nat) -> Seq<char> {
    let st = line_start(s, n);
    if st < 0 {
        Seq::empty()
    } else {
        let t = s.subrange(st, line_end(s, st));
        if t.len() > 0 && t.last() == '\r' {
            t.drop_last()
        } else {
            t
        }
    }
}

pub open spec fn spaces(n: nat) -> Seq<char> {
    Seq::new(n, |i: int| ' ')
}

/// The diagnostic for an error at line `l`, column `c`, with message `msg`, where the
/// text of the line is `text`:
///
/// ```text
///  |
///  | [l+1] text
///  |       ^ msg
/// ```
pub open spec fn diagnostic(l: nat, c: nat, text: Seq<char>, msg: Seq<char>) -> Seq<char> {
    let num = decimal((l + 1) as int);
    " |\n"@ + (" | ["@ + num + "] "@ + text + "\n"@) + (" | "@ + spaces(c + num.len() + 3) + "^ "@
        + msg + "\n"@)
}

impl LoxError {
    /// Renders this error in three lines against the program text it came from.
    pub fn generate_err_msg(&self, program: &String) -> (r: String)
        requires
            self.pos.line < i64::MAX,
        ensures
            r@ == diagnostic(
                self.pos.line as nat,
                self.pos.line_pos as nat,
                line_text(program@, self.pos.line as nat),
                self.msg@,
            ),
    {
        let chars = chars_of(program.as_str());
        let text = line_of(&chars, self.pos.line);
        let num = i64_to_decimal(self.pos.line as i64 + 1);
        let mut r = String::from_str(" |\n");
        r.append(" | [");
        r.append(num.as_str());
        r.append("] ");
        r.append(text.as_str());
        r.append("\n");
        r.append(" | ");
        let ghost before = r@;
        let width = num.as_str().unicode_len();
        let mut i: usize = 0;
        while i < self.pos.line_pos
            invariant
                i <= self.pos.line_pos,
                r@ == before + spaces(i as nat),
            decreases self.pos.line_pos - i,
        {
            push_char(&mut r, ' ');
            i += 1;
            assert(r@ =~= before + spaces(i as nat));
        }
        let ghost mid = r@;
        let mut j: usize = 0;
        while j < width
            invariant
                j <= width,
                r@ == mid + spaces(j as nat),
            decreases width - j,
        {
            push_char(&mut r, ' ');
            j += 1;
            assert(r@ =~= mid + spaces(j as nat));
        }
        r.append("   ");
        proof {
            reveal_strlit("   ");
            assert("   "@ =~= spaces(3));
        }
        assert(r@ =~= before + spaces((self.pos.line_pos + width + 3) as nat));
        r.append("^ ");
        r.append(self.msg.as_str());
        r.append("\n");
        assert(r@ =~= diagnostic(
            self.pos.line as nat,
            self.pos.line_pos as nat,
            line_text(program@, self.pos.line as nat),
            self.msg@,
        ));
        r
    }
}

/// Line `n` of the text, as `line_text` describes it.
fn line_of(s: &Vec<char>, n: usize) -> (r: String)
    ensures
        r@ == line_text(s@, n as nat),
{
    let ghost t = s@;
    let mut st: usize = 0;
    let mut k: usize = 0;
    while k < n
        invariant
            k <= n,
            line_start(t, k as nat) == st as int,
            st <= t.len(),
            t == s@,
        decreases n - k,
    {
        let mut e = st;
        proof {
            lemma_line_end_bounds(t, st as int);
        }
        while e < s.len() && s[e] != '\n'
            invariant
                st <= e <= t.len(),
                line_end(t, e as int) == line_end(t, st as int),
                t == s@,
            decreases s.len() - e,
        {
            e += 1;
        }
        if e >= s.len() {
            proof {
                lemma_line_start_stays_absent(t, (k + 1) as nat, n as nat);
            }
            return String::new();
        }
        st = e + 1;
        k += 1;
    }
    let mut e = st;
    while e < s.len() && s[e] != '\n'
        invariant
            st <= e <= t.len(),
            line_end(t, e as int) == line_end(t, st as int),
            t == s@,
        decreases s.len() - e,
    {
        e += 1;
    }
    if e > st && s[e - 1] == '\r' {
        e = e - 1;
    }
    let mut r = String::new();
    let mut i = st;
    while i < e
        invariant
            st <= i <= e,
            e <= t.len(),
            r@ == t.subrange(st as int, i as int),
            t == s@,
        decreases e - i,
    {
        push_char(&mut r, s[i]);
        i += 1;
        assert(r@ =~= t.subrange(st as int, i as int));
    }
    proof {
        let full = t.subrange(st as int, line_end(t, st as int));
        if full.len() > 0 && full.last() == '\r' {
            assert(full.drop_last() =~= t.subrange(st as int, e as int));
        } else {
            assert(full =~= t.subrange(st as int, e as int));
        }
    }
    r
}

proof fn lemma_line_start_stays_absent(s: Seq<char>, k: nat, n: nat)
    requires
        line_start(s, k) == -1,
        k <= n,
    ensures
        line_start(s, n) == -1,
    decreases n - k,
{
    if k < n {
        lemma_line_start_stays_absent(s, k + 1, n);
    }
}

} // verus!
