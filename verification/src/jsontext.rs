//! Building JSON text in verified code.
//!
//! Rendering contexts are handed to the template engine as JSON source, so
//! the engine's determinism rests on this module producing one exact text
//! for one input. Every builder's contract pins the produced characters.

use vstd::prelude::*;

use crate::text::StrMap;

verus! {

/// The lower-case hexadecimal digit for `n` (0 to 15).
pub open spec fn hex_digit(n: int) -> char {
    if n == 0 {
        '0'
    } else if n == 1 {
        '1'
    } else if n == 2 {
        '2'
    } else if n == 3 {
        '3'
    } else if n == 4 {
        '4'
    } else if n == 5 {
        '5'
    } else if n == 6 {
        '6'
    } else if n == 7 {
        '7'
    } else if n == 8 {
        '8'
    } else if n == 9 {
        '9'
    } else if n == 10 {
        'a'
    } else if n == 11 {
        'b'
    } else if n == 12 {
        'c'
    } else if n == 13 {
        'd'
    } else if n == 14 {
        'e'
    } else {
        'f'
    }
}

/// How one character appears inside a JSON string literal.
pub open spec fn escape_char(c: char) -> Seq<char> {
    if c == '"' {
        seq!['\\', '"']
    } else if c == '\\' {
        seq!['\\', '\\']
    } else if (c as u32) < 32 {
        seq!['\\', 'u', '0', '0', hex_digit(c as u32 as int / 16), hex_digit(c as u32 as int % 16)]
    } else {
        seq![c]
    }
}

/// The body of a JSON string literal for `s`.
pub open spec fn escape_str(s: Seq<char>) -> Seq<char>
    decreases s.len(),
{
    if s.len() == 0 {
        Seq::<char>::empty()
    } else {
        escape_char(s[0]) + escape_str(s.skip(1))
    }
}

/// The JSON string literal for `s`, quotes included.
pub open spec fn json_string(s: Seq<char>) -> Seq<char> {
    seq!['"'] + escape_str(s) + seq!['"']
}

/// `items` joined with `sep` between neighbours.
pub open spec fn join_sep(items: Seq<Seq<char>>, sep: Seq<char>) -> Seq<char>
    decreases items.len(),
{
    if items.len() == 0 {
        Seq::<char>::empty()
    } else if items.len() == 1 {
        items[0]
    } else {
        items[0] + sep + join_sep(items.skip(1), sep)
    }
}

/// The `"key":"value"` member list of a string-valued JSON object.
pub open spec fn strmap_members(m: Seq<(Seq<char>, Seq<char>)>) -> Seq<Seq<char>> {
    m.map_values(|p: (Seq<char>, Seq<char>)| json_string(p.0) + seq![':'] + json_string(p.1))
}

/// The JSON object whose members are the pairs of `m`, in order.
pub open spec fn strmap_json(m: Seq<(Seq<char>, Seq<char>)>) -> Seq<char> {
    seq!['{'] + join_sep(strmap_members(m), seq![',']) + seq!['}']
}

/// The JSON array of the string literals for `items`, in order.
pub open spec fn string_array_json(items: Seq<Seq<char>>) -> Seq<char> {
    seq!['['] + join_sep(items.map_values(|s: Seq<char>| json_string(s)), seq![',']) + seq![']']
}

/// `items` joined with a newline between neighbours.
pub open spec fn joined_lines(items: Seq<Seq<char>>) -> Seq<char> {
    join_sep(items, seq!['\n'])
}

/// Appending one more item extends the join by a separator and the item.
pub proof fn lemma_join_sep_snoc(items: Seq<Seq<char>>, sep: Seq<char>, x: Seq<char>)
    ensures
        items.len() == 0 ==> join_sep(items.push(x), sep) == x,
        items.len() > 0 ==> join_sep(items.push(x), sep) == join_sep(items, sep) + sep + x,
    decreases items.len(),
{
    if items.len() == 0 {
        assert(items.push(x)[0] == x);
    } else if items.len() == 1 {
        let t = items.push(x);
        assert(t.skip(1) =~= seq![x]);
        assert(join_sep(seq![x], sep) == x);
        assert(t[0] == items[0]);
    } else {
        lemma_join_sep_snoc(items.skip(1), sep, x);
        let t = items.push(x);
        assert(t.skip(1) =~= items.skip(1).push(x));
        assert(t[0] == items[0]);
        assert(join_sep(t, sep) == items[0] + sep + join_sep(items.skip(1).push(x), sep));
        assert(items[0] + sep + (join_sep(items.skip(1), sep) + sep + x) =~= (items[0] + sep
            + join_sep(items.skip(1), sep)) + sep + x);
    }
}

/// Escaping one more character appends its escape.
proof fn lemma_escape_str_snoc(s: Seq<char>, c: char)
    ensures
        escape_str(s.push(c)) == escape_str(s) + escape_char(c),
    decreases s.len(),
{
    if s.len() == 0 {
        assert(s.push(c)[0] == c);
        assert(s.push(c).skip(1) =~= Seq::<char>::empty());
        assert(escape_str(Seq::<char>::empty()) =~= Seq::<char>::empty());
        assert(escape_char(c) + Seq::<char>::empty() =~= escape_char(c));
        assert(escape_str(s) + escape_char(c) =~= escape_char(c));
    } else {
        lemma_escape_str_snoc(s.skip(1), c);
        let t = s.push(c);
        assert(t[0] == s[0]);
        assert(t.skip(1) =~= s.skip(1).push(c));
        assert(escape_char(s[0]) + (escape_str(s.skip(1)) + escape_char(c)) =~= (escape_char(s[0])
            + escape_str(s.skip(1))) + escape_char(c));
    }
}

/// The decimal digits of `n`, most significant first.
pub open spec fn dec_digits(n: nat) -> Seq<char>
    decreases n,
{
    if n < 10 {
        seq![hex_digit(n as int)]
    } else {
        dec_digits(n / 10).push(hex_digit((n % 10) as int))
    }
}

/// Writes `n` in decimal.
pub fn usize_to_string(n: usize) -> (r: String)
    ensures
        r@ == dec_digits(n as nat),
    decreases n,
{
    if n < 10 {
        let mut out = String::new();
        push_char(&mut out, hex_digit_exec(n as u32));
        proof {
            assert(out@ =~= dec_digits(n as nat));
        }
        out
    } else {
        proof {
            assert(n / 10 < n) by (nonlinear_arith)
                requires
                    n >= 10,
            ;
        }
        let mut out = usize_to_string(n / 10);
        push_char(&mut out, hex_digit_exec((n % 10) as u32));
        out
    }
}

/// Relies on `String::push`: appends exactly one character.
#[verifier::external_body]
pub fn push_char(s: &mut String, c: char)
    ensures
        final(s)@ == old(s)@.push(c),
{
    s.push(c);
}

/// Appends `piece` unchanged.
pub fn append_raw(out: &mut String, piece: &str)
    ensures
        final(out)@ == old(out)@ + piece@,
{
    out.append(piece);
}

/// The lower-case hexadecimal digit for `n`.
fn hex_digit_exec(n: u32) -> (r: char)
    requires
        n < 16,
    ensures
        r == hex_digit(n as int),
{
    if n == 0 {
        '0'
    } else if n == 1 {
        '1'
    } else if n == 2 {
        '2'
    } else if n == 3 {
        '3'
    } else if n == 4 {
        '4'
    } else if n == 5 {
        '5'
    } else if n == 6 {
        '6'
    } else if n == 7 {
        '7'
    } else if n == 8 {
        '8'
    } else if n == 9 {
        '9'
    } else if n == 10 {
        'a'
    } else if n == 11 {
        'b'
    } else if n == 12 {
        'c'
    } else if n == 13 {
        'd'
    } else if n == 14 {
        'e'
    } else {
        'f'
    }
}

/// Appends the escaped form of one character.
fn append_escaped_char(out: &mut String, c: char)
    ensures
        final(out)@ == old(out)@ + escape_char(c),
{
    if c == '"' {
        push_char(out, '\\');
        push_char(out, '"');
        proof {
            assert(old(out)@.push('\\').push('"') =~= old(out)@ + escape_char(c));
        }
    } else if c == '\\' {
        push_char(out, '\\');
        push_char(out, '\\');
        proof {
            assert(old(out)@.push('\\').push('\\') =~= old(out)@ + escape_char(c));
        }
    } else if (c as u32) < 32 {
        let x = c as u32;
        push_char(out, '\\');
        push_char(out, 'u');
        push_char(out, '0');
        push_char(out, '0');
        push_char(out, hex_digit_exec(x / 16));
        push_char(out, hex_digit_exec(x % 16));
        proof {
            assert(old(out)@.push('\\').push('u').push('0').push('0').push(
                hex_digit(x as int / 16),
            ).push(hex_digit(x as int % 16)) =~= old(out)@ + escape_char(c));
        }
    } else {
        push_char(out, c);
        proof {
            assert(old(out)@.push(c) =~= old(out)@ + escape_char(c));
        }
    }
}

/// Appends the escaped body of a JSON string literal for `s`.
fn append_escaped(out: &mut String, s: &str)
    ensures
        final(out)@ == old(out)@ + escape_str(s@),
{
    let n = s.unicode_len();
    let mut i: usize = 0;
    proof {
        assert(s@.subrange(0, 0) =~= Seq::<char>::empty());
        assert(old(out)@ + escape_str(Seq::<char>::empty()) =~= old(out)@);
    }
    while i < n
        invariant
            n == s@.len(),
            i <= n,
            out@ == old(out)@ + escape_str(s@.subrange(0, i as int)),
        decreases n - i,
    {
        let c = s.get_char(i);
        append_escaped_char(out, c);
        proof {
            lemma_escape_str_snoc(s@.subrange(0, i as int), s@[i as int]);
            assert(s@.subrange(0, i as int).push(s@[i as int]) =~= s@.subrange(0, i as int + 1));
        }
        i = i + 1;
    }
    proof {
        assert(s@.subrange(0, n as int) =~= s@);
    }
}

/// Appends the JSON string literal for `s`, quotes included.
pub fn append_json_string(out: &mut String, s: &str)
    ensures
        final(out)@ == old(out)@ + json_string(s@),
{
    push_char(out, '"');
    append_escaped(out, s);
    push_char(out, '"');
    proof {
        assert((old(out)@.push('"') + escape_str(s@)).push('"') =~= old(out)@ + json_string(s@));
    }
}

/// Appends the JSON object for the map's pairs, in order.
pub fn append_strmap_json(out: &mut String, m: &StrMap)
    ensures
        final(out)@ == old(out)@ + strmap_json(m@),
{
    let ghost membs = strmap_members(m@);
    push_char(out, '{');
    let n = m.len();
    let mut i: usize = 0;
    proof {
        assert(membs.subrange(0, 0) =~= Seq::<Seq<char>>::empty());
        assert(out@ + join_sep(Seq::<Seq<char>>::empty(), seq![',']) =~= out@);
    }
    while i < n
        invariant
            n == m@.len(),
            membs == strmap_members(m@),
            membs.len() == n,
            i <= n,
            out@ == old(out)@.push('{') + join_sep(membs.subrange(0, i as int), seq![',']),
        decreases n - i,
    {
        let ghost before = out@;
        if i > 0 {
            push_char(out, ',');
        }
        append_json_string(out, m.key_at(i).as_str());
        push_char(out, ':');
        append_json_string(out, m.val_at(i).as_str());
        proof {
            lemma_join_sep_snoc(membs.subrange(0, i as int), seq![','], membs[i as int]);
            assert(membs.subrange(0, i as int).push(membs[i as int]) =~= membs.subrange(
                0,
                i as int + 1,
            ));
            if i == 0 {
                assert(out@ =~= before + membs[i as int]);
            } else {
                assert(out@ =~= before + seq![','] + membs[i as int]);
                assert(before + seq![','] + membs[i as int] =~= old(out)@.push('{') + (join_sep(
                    membs.subrange(0, i as int),
                    seq![','],
                ) + seq![','] + membs[i as int]));
            }
        }
        i = i + 1;
    }
    push_char(out, '}');
    proof {
        assert(membs.subrange(0, n as int) =~= membs);
        assert((old(out)@.push('{') + join_sep(membs, seq![','])).push('}') =~= old(out)@
            + strmap_json(m@));
    }
}

/// Appends the JSON array of string literals for `items`, in order.
pub fn append_string_array_json(out: &mut String, items: &Vec<String>)
    ensures
        final(out)@ == old(out)@ + string_array_json(items@.map_values(|s: String| s@)),
{
    let ghost views = items@.map_values(|s: String| s@);
    let ghost membs = views.map_values(|s: Seq<char>| json_string(s));
    push_char(out, '[');
    let n = items.len();
    let mut i: usize = 0;
    proof {
        assert(membs.subrange(0, 0) =~= Seq::<Seq<char>>::empty());
        assert(out@ + join_sep(Seq::<Seq<char>>::empty(), seq![',']) =~= out@);
    }
    while i < n
        invariant
            n == items@.len(),
            views == items@.map_values(|s: String| s@),
            membs == views.map_values(|s: Seq<char>| json_string(s)),
            membs.len() == n,
            i <= n,
            out@ == old(out)@.push('[') + join_sep(membs.subrange(0, i as int), seq![',']),
        decreases n - i,
    {
        let ghost before = out@;
        if i > 0 {
            push_char(out, ',');
        }
        append_json_string(out, items[i].as_str());
        proof {
            lemma_join_sep_snoc(membs.subrange(0, i as int), seq![','], membs[i as int]);
            assert(membs.subrange(0, i as int).push(membs[i as int]) =~= membs.subrange(
                0,
                i as int + 1,
            ));
            if i == 0 {
                assert(out@ =~= before + membs[i as int]);
            } else {
                assert(out@ =~= before + seq![','] + membs[i as int]);
                assert(before + seq![','] + membs[i as int] =~= old(out)@.push('[') + (join_sep(
                    membs.subrange(0, i as int),
                    seq![','],
                ) + seq![','] + membs[i as int]));
            }
        }
        i = i + 1;
    }
    push_char(out, ']');
    proof {
        assert(membs.subrange(0, n as int) =~= membs);
        assert((old(out)@.push('[') + join_sep(membs, seq![','])).push(']') =~= old(out)@
            + string_array_json(views));
    }
}

/// Joins `lines` with newlines, as a multi-line template body is joined
/// before it is compiled.
pub fn join_lines(lines: &Vec<String>) -> (r: String)
    ensures
        r@ == joined_lines(lines@.map_values(|s: String| s@)),
{
    let ghost views = lines@.map_values(|s: String| s@);
    let mut out = String::new();
    let n = lines.len();
    let mut i: usize = 0;
    proof {
        assert(views.subrange(0, 0) =~= Seq::<Seq<char>>::empty());
        assert(out@ =~= Seq::<char>::empty() + join_sep(Seq::<Seq<char>>::empty(), seq!['\n']));
    }
    while i < n
        invariant
            n == lines@.len(),
            views == lines@.map_values(|s: String| s@),
            views.len() == n,
            i <= n,
            out@ == join_sep(views.subrange(0, i as int), seq!['\n']),
        decreases n - i,
    {
        let ghost before = out@;
        if i > 0 {
            push_char(&mut out, '\n');
        }
        append_raw(&mut out, lines[i].as_str());
        proof {
            lemma_join_sep_snoc(views.subrange(0, i as int), seq!['\n'], views[i as int]);
            assert(views.subrange(0, i as int).push(views[i as int]) =~= views.subrange(
                0,
                i as int + 1,
            ));
            if i == 0 {
                assert(out@ =~= before + views[i as int]);
            } else {
                assert(out@ =~= before + seq!['\n'] + views[i as int]);
                assert(before + seq!['\n'] + views[i as int] =~= join_sep(
                    views.subrange(0, i as int),
                    seq!['\n'],
                ) + seq!['\n'] + views[i as int]);
            }
        }
        i = i + 1;
    }
    proof {
        assert(views.subrange(0, n as int) =~= views);
    }
    out
}

} // verus!
