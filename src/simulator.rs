//! A dry run of a program's source: the log lines that its `msg!("...")`
//! calls would print, in the form the runtime prints them.
//!
//! Each line of the source is trimmed of white space; a line that then
//! starts with `msg!(` and holds two or more double quotes logs the text
//! between its first and its last double quote.

use vstd::prelude::*;

verus! {

/// The characters that Unicode classes as White_Space.
pub open spec fn is_white_space(c: char) -> bool {
    let u = c as u32;
    (0x9 <= u <= 0xd) || u == 0x20 || u == 0x85 || u == 0xa0 || u == 0x1680 || (0x2000 <= u
        <= 0x200a) || u == 0x2028 || u == 0x2029 || u == 0x202f || u == 0x205f || u == 0x3000
}

/// `s` without its leading white space.
pub open spec fn trim_start(s: Seq<char>) -> Seq<char>
    decreases s.len(),
{
    if s.len() > 0 && is_white_space(s[0]) {
        trim_start(s.drop_first())
    } else {
        s
    }
}

/// `s` without its trailing white space.
pub open spec fn trim_end(s: Seq<char>) -> Seq<char>
    decreases s.len(),
{
    if s.len() > 0 && is_white_space(s.last()) {
        trim_end(s.drop_last())
    } else {
        s
    }
}

/// The position of the first `c` in `s` at or after `i`.
pub open spec fn find_from(s: Seq<char>, c: char, i: int) -> Option<int>
    decreases s.len() - i,
{
    if i < 0 || i >= s.len() {
        None
    } else if s[i] == c {
        Some(i)
    } else {
        find_from(s, c, i + 1)
    }
}

/// The position of the last `c` in `s` before `i`.
pub open spec fn rfind_before(s: Seq<char>, c: char, i: int) -> Option<int>
    decreases i,
{
    if i <= 0 || i > s.len() {
        None
    } else if s[i - 1] == c {
        Some(i - 1)
    } else {
        rfind_before(s, c, i - 1)
    }
}

/// The opening of a log call.
pub open spec fn msg_call() -> Seq<char> {
    seq!['m', 's', 'g', '!', '(']
}

/// What one source line logs: nothing, or one line of output.
pub open spec fn line_log(line: Seq<char>) -> Seq<char> {
    let t = trim_end(trim_start(line));
    let first = find_from(t, '"', 0);
    let last = rfind_before(t, '"', t.len() as int);
    if t.len() >= 5 && t.subrange(0, 5) == msg_call() && first is Some && last is Some
        && first->Some_0 < last->Some_0 {
        "Program log: "@ + t.subrange(first->Some_0 + 1, last->Some_0) + "\n"@
    } else {
        Seq::empty()
    }
}

/// The end of the line that starts at `i`: its newline, or the end of `s`.
pub open spec fn line_end(s: Seq<char>, i: int) -> int
    decreases s.len() - i,
{
    if i >= s.len() {
        s.len() as int
    } else if s[i] == '\n' {
        i
    } else {
        line_end(s, i + 1)
    }
}

/// What the lines of `s` from position `i` on log.
pub open spec fn logs_from(s: Seq<char>, i: int) -> Seq<char>
    decreases s.len() + 1 - i,
{
    if i < 0 || i > s.len() {
        Seq::empty()
    } else {
        let e = line_end(s, i);
        if e < i || e > s.len() {
            Seq::empty()
        } else {
            line_log(s.subrange(i, e)) + logs_from(s, e + 1)
        }
    }
}

/// The whole report of a dry run of `code`.
pub open spec fn simulated_output(code: Seq<char>) -> Seq<char> {
    let logs = logs_from(code, 0);
    (if logs.len() == 0 {
        "Program executed successfully (no output)\n"@
    } else {
        logs
    }) + "Program completed successfully\n"@
}

proof fn lemma_line_end_bounds(s: Seq<char>, i: int)
    requires
        0 <= i <= s.len(),
    ensures
        i <= line_end(s, i) <= s.len(),
    decreases s.len() - i,
{
    if i < s.len() && s[i] != '\n' {
        lemma_line_end_bounds(s, i + 1);
    }
}

/// Collects the characters of `s`.
fn chars_of(s: &str) -> (r: Vec<char>)
    ensures
        r@ == s@,
{
    let mut out: Vec<char> = Vec::new();
    for c in it: s.chars()
        invariant
            out@ == it.seq().subrange(0, it.index() as int),
    {
        out.push(c);
    }
    out
}

fn white_space(c: char) -> (r: bool)
    ensures
        r == is_white_space(c),
{
    let u = c as u32;
    (0x9 <= u && u <= 0xd) || u == 0x20 || u == 0x85 || u == 0xa0 || u == 0x1680 || (0x2000 <= u
        && u <= 0x200a) || u == 0x2028 || u == 0x2029 || u == 0x202f || u == 0x205f || u == 0x3000
}

/// The bounds of `chars[from..to]` once trimmed of white space.
fn trimmed_bounds(chars: &Vec<char>, from: usize, to: usize) -> (r: (usize, usize))
    requires
        from <= to <= chars@.len(),
    ensures
        from <= r.0 <= r.1 <= to,
        chars@.subrange(r.0 as int, r.1 as int) == trim_end(
            trim_start(chars@.subrange(from as int, to as int)),
        ),
{
    let mut a = from;
    while a < to && white_space(chars[a])
        invariant
            from <= a <= to <= chars@.len(),
            trim_start(chars@.subrange(from as int, to as int)) == trim_start(
                chars@.subrange(a as int, to as int),
            ),
        decreases to - a,
    {
        assert(chars@.subrange(a as int, to as int).drop_first() =~= chars@.subrange(
            a + 1,
            to as int,
        ));
        a = a + 1;
    }
    let mut b = to;
    while b > a && white_space(chars[b - 1])
        invariant
            a <= b <= to,
            to <= chars@.len(),
            trim_end(chars@.subrange(a as int, to as int)) == trim_end(
                chars@.subrange(a as int, b as int),
            ),
        decreases b - a,
    {
        assert(chars@.subrange(a as int, b as int).drop_last() =~= chars@.subrange(
            a as int,
            b - 1,
        ));
        b = b - 1;
    }
    (a, b)
}

/// The position of the first `c` in `chars[from..to]`, counted from `from`.
fn find_char(chars: &Vec<char>, from: usize, to: usize, c: char) -> (r: Option<usize>)
    requires
        from <= to <= chars@.len(),
    ensures
        match r {
            Some(k) => k < to - from && find_from(chars@.subrange(from as int, to as int), c, 0)
                == Some(k as int),
            None => find_from(chars@.subrange(from as int, to as int), c, 0) is None,
        },
{
    let ghost t = chars@.subrange(from as int, to as int);
    let mut i = from;
    while i < to
        invariant
            from <= i <= to <= chars@.len(),
            t == chars@.subrange(from as int, to as int),
            find_from(t, c, 0) == find_from(t, c, i - from),
        decreases to - i,
    {
        if chars[i] == c {
            return Some(i - from);
        }
        i = i + 1;
    }
    None
}

/// The position of the last `c` in `chars[from..to]`, counted from `from`.
fn rfind_char(chars: &Vec<char>, from: usize, to: usize, c: char) -> (r: Option<usize>)
    requires
        from <= to <= chars@.len(),
    ensures
        match r {
            Some(k) => k < to - from && rfind_before(
                chars@.subrange(from as int, to as int),
                c,
                to - from,
            ) == Some(k as int),
            None => rfind_before(chars@.subrange(from as int, to as int), c, to - from) is None,
        },
{
    let ghost t = chars@.subrange(from as int, to as int);
    let mut i = to;
    while i > from
        invariant
            from <= i <= to <= chars@.len(),
            t == chars@.subrange(from as int, to as int),
            rfind_before(t, c, to - from) == rfind_before(t, c, i - from),
        decreases i - from,
    {
        if chars[i - 1] == c {
            return Some(i - 1 - from);
        }
        i = i - 1;
    }
    None
}

/// Whether `chars[from..to]` starts with `msg!(`.
fn starts_with_msg_call(chars: &Vec<char>, from: usize, to: usize) -> (r: bool)
    requires
        from <= to <= chars@.len(),
    ensures
        r == (to - from >= 5 && chars@.subrange(from as int, to as int).subrange(0, 5)
            == msg_call()),
{
    if to - from < 5 {
        return false;
    }
    let ghost p = chars@.subrange(from as int, to as int).subrange(0, 5);
    let r = chars[from] == 'm' && chars[from + 1] == 's' && chars[from + 2] == 'g' && chars[from
        + 3] == '!' && chars[from + 4] == '(';
    if r {
        assert(p =~= msg_call());
    } else {
        assert(p != msg_call()) by {
            if p == msg_call() {
                assert(p[0] == 'm' && p[1] == 's' && p[2] == 'g' && p[3] == '!' && p[4] == '(');
            }
        }
    }
    r
}

/// Appends to `out` what the line `chars[from..to]` logs.
fn log_line(code: &str, chars: &Vec<char>, from: usize, to: usize, out: &mut String)
    requires
        chars@ == code@,
        from <= to <= chars@.len(),
    ensures
        final(out)@ == old(out)@ + line_log(chars@.subrange(from as int, to as int)),
{
    let ghost line = chars@.subrange(from as int, to as int);
    let (a, b) = trimmed_bounds(chars, from, to);
    let ghost t = chars@.subrange(a as int, b as int);
    if !starts_with_msg_call(chars, a, b) {
        return;
    }
    let first = find_char(chars, a, b, '"');
    let last = rfind_char(chars, a, b, '"');
    match (first, last) {
        (Some(f), Some(l)) => {
            if f < l {
                out.append("Program log: ");
                out.append(code.substring_char(a + f + 1, a + l));
                out.append("\n");
                assert(chars@.subrange(a + f + 1, a + l as int) =~= t.subrange(
                    f + 1,
                    l as int,
                ));
            }
        },
        _ => {},
    }
}

/// Dry-runs `code`: each `msg!("...")` line logs `Program log: ...`; a run
/// that logs nothing says so; every run ends with a completion line.
pub fn simulate_arch_execution(code: &str) -> (r: Result<String, String>)
    ensures
        r matches Ok(s) && s@ == simulated_output(code@),
{
    let chars = chars_of(code);
    let mut output = String::new();
    let n = chars.len();
    let mut i: usize = 0;
    loop
        invariant_except_break
            logs_from(code@, 0) == output@ + logs_from(code@, i as int),
        invariant
            i <= n,
            chars@ == code@,
            n == chars@.len(),
        ensures
            logs_from(code@, 0) == output@,
        decreases n - i,
    {
        let mut e = i;
        while e < n && chars[e] != '\n'
            invariant
                i <= e <= n,
                chars@ == code@,
                n == chars@.len(),
                line_end(code@, i as int) == line_end(code@, e as int),
            decreases n - e,
        {
            e = e + 1;
        }
        proof {
            lemma_line_end_bounds(code@, i as int);
        }
        log_line(code, &chars, i, e, &mut output);
        if e == n {
            assert(logs_from(code@, e + 1) == Seq::<char>::empty());
            assert(output@ + Seq::<char>::empty() =~= output@);
            break;
        }
        i = e + 1;
    }
    if output.as_str().unicode_len() == 0 {
        output.append("Program executed successfully (no output)\n");
    }
    output.append("Program completed successfully\n");
    Ok(output)
}

} // verus!
