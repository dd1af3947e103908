use vstd::prelude::*;

verus! {

// === Plain text building blocks shared by every lowering rule ===

/// Relies on std's `String::push`: appends the given character to the end of
/// the string; vstd specifies `push_str`-style appends but not `push`.
pub assume_specification[ String::push ](s: &mut String, ch: char)
    ensures
        final(s)@ == old(s)@.push(ch),
;

/// Two spaces for every active nesting level.
pub open spec fn spec_indentation(n: nat) -> Seq<char>
    decreases n,
{
    if n == 0 {
        Seq::<char>::empty()
    } else {
        spec_indentation((n - 1) as nat) + "  "@
    }
}

/// One more nesting level; the counter never moves past the machine limit.
pub open spec fn spec_inc(n: nat) -> nat {
    if n < usize::MAX as nat {
        n + 1
    } else {
        n
    }
}

/// A qualified name flattened to a single token: every `.` becomes `_`.
pub open spec fn spec_mangled(s: Seq<char>, i: int) -> Seq<char>
    decreases s.len() - i,
{
    if i < 0 || i >= s.len() {
        Seq::<char>::empty()
    } else if s[i] == '.' {
        seq!['_'] + spec_mangled(s, i + 1)
    } else {
        seq![s[i]] + spec_mangled(s, i + 1)
    }
}

/// The text with a backslash put before every occurrence of `quote`.
pub open spec fn spec_escaped(s: Seq<char>, quote: char, i: int) -> Seq<char>
    decreases s.len() - i,
{
    if i < 0 || i >= s.len() {
        Seq::<char>::empty()
    } else if s[i] == quote {
        seq!['\\', quote] + spec_escaped(s, quote, i + 1)
    } else {
        seq![s[i]] + spec_escaped(s, quote, i + 1)
    }
}

pub open spec fn spec_digit(d: nat) -> char {
    (((('0' as u8) as nat + d) % 256) as u8) as char
}

/// The decimal digits of `n`, most significant first.
pub open spec fn spec_decimal(n: nat) -> Seq<char>
    decreases n,
{
    if n < 10 {
        seq![spec_digit(n)]
    } else {
        spec_decimal(n / 10).push(spec_digit(n % 10))
    }
}

/// The decimal text of a signed value: a `-` sign before the magnitude.
pub open spec fn spec_int_text(v: int) -> Seq<char> {
    if v < 0 {
        seq!['-'] + spec_decimal((-v) as nat)
    } else {
        spec_decimal(v as nat)
    }
}

// === The scope stack, seen abstractly ===

/// A stack of scopes; each scope lists the names bound in it.
pub type Scopes = Seq<Seq<Seq<char>>>;

/// Whether `name` is bound in any scope of the stack, outermost included.
pub open spec fn spec_is_declared(sc: Scopes, name: Seq<char>) -> bool {
    exists|i: int| 0 <= i < sc.len() && sc[i].contains(name)
}

/// Binds `name` in the innermost scope; with no scope on the stack, a no-op.
pub open spec fn spec_declare(sc: Scopes, name: Seq<char>) -> Scopes {
    if sc.len() == 0 {
        sc
    } else {
        sc.update(sc.len() - 1, sc.last().push(name))
    }
}

pub open spec fn spec_push_scope(sc: Scopes) -> Scopes {
    sc.push(Seq::<Seq<char>>::empty())
}

pub open spec fn spec_pop_scope(sc: Scopes) -> Scopes {
    if sc.len() == 0 {
        sc
    } else {
        sc.drop_last()
    }
}

// === Executable counterparts ===

/// Character-for-character equality of two string slices.
pub fn str_eq(a: &str, b: &str) -> (r: bool)
    ensures
        r == (a@ == b@),
{
    let alen: usize = a.unicode_len();
    let blen: usize = b.unicode_len();
    if alen != blen {
        assert(a@ != b@);
        return false;
    }
    let mut i: usize = 0;
    while i < alen
        invariant
            alen == a@.len(),
            alen == b@.len(),
            i <= alen,
            forall|k: int| 0 <= k < i ==> a@[k] == b@[k],
        decreases alen - i,
    {
        let ca = a.get_char(i);
        let cb = b.get_char(i);
        if ca != cb {
            assert(a@[i as int] != b@[i as int]);
            return false;
        }
        i = i + 1;
    }
    proof {
        assert(a@ =~= b@);
    }
    true
}

pub fn push_mangled(out: &mut String, s: &str, i: usize)
    ensures
        final(out)@ == old(out)@ + spec_mangled(s@, i as int),
    decreases s@.len() - i,
{
    let n: usize = s.unicode_len();
    if i >= n {
        assert(final(out)@ =~= old(out)@ + spec_mangled(s@, i as int));
        return ;
    }
    let c = s.get_char(i);
    if c == '.' {
        out.push('_');
    } else {
        out.push(c);
    }
    push_mangled(out, s, i + 1);
    assert(final(out)@ =~= old(out)@ + spec_mangled(s@, i as int));
}

pub fn push_escaped(out: &mut String, s: &str, quote: char, i: usize)
    ensures
        final(out)@ == old(out)@ + spec_escaped(s@, quote, i as int),
    decreases s@.len() - i,
{
    let n: usize = s.unicode_len();
    if i >= n {
        assert(final(out)@ =~= old(out)@ + spec_escaped(s@, quote, i as int));
        return ;
    }
    let c = s.get_char(i);
    if c == quote {
        out.push('\\');
        out.push(quote);
    } else {
        out.push(c);
    }
    push_escaped(out, s, quote, i + 1);
    assert(final(out)@ =~= old(out)@ + spec_escaped(s@, quote, i as int));
}

pub fn push_decimal(out: &mut String, n: u64)
    ensures
        final(out)@ == old(out)@ + spec_decimal(n as nat),
    decreases n,
{
    if n < 10 {
        let c: char = (('0' as u8) + (n as u8)) as char;
        assert(c == spec_digit(n as nat));
        out.push(c);
        assert(final(out)@ =~= old(out)@ + spec_decimal(n as nat));
    } else {
        push_decimal(out, n / 10);
        let d: u64 = n % 10;
        let c: char = (('0' as u8) + (d as u8)) as char;
        assert(c == spec_digit(n as nat % 10));
        out.push(c);
        assert(final(out)@ =~= old(out)@ + spec_decimal(n as nat));
    }
}

pub fn push_int(out: &mut String, v: i64)
    ensures
        final(out)@ == old(out)@ + spec_int_text(v as int),
{
    if v >= 0 {
        push_decimal(out, v as u64);
    } else {
        out.push('-');
        let m: u64 = if v == i64::MIN {
            9223372036854775808u64
        } else {
            (-v) as u64
        };
        assert(m as nat == (-(v as int)) as nat);
        push_decimal(out, m);
        assert(final(out)@ =~= old(out)@ + spec_int_text(v as int));
    }
}

} // verus!
