//! Windows command lines: quoting arguments in UTF-16 so that the rules by
//! which `CommandLineToArgvW` and the C runtime split a command line give the
//! arguments back.

use vstd::prelude::*;

verus! {

/// UTF-16 code unit of `\`.
pub const BACKSLASH: u16 = 92;

/// UTF-16 code unit of `"`.
pub const QUOTE: u16 = 34;

/// UTF-16 code unit of a space.
pub const SPACE: u16 = 32;

/// UTF-16 code unit of a horizontal tab.
pub const TAB: u16 = 9;

// ---------------------------------------------------------------------------
// Model
// ---------------------------------------------------------------------------

/// `n` backslashes.
pub open spec fn backslashes(n: nat) -> Seq<u16> {
    Seq::new(n, |i: int| BACKSLASH)
}

/// The body of a quoted argument for `a`, when `pending` backslashes read just
/// before `a` are still to be written. A run of backslashes is doubled when a
/// quote or the end of the argument follows it; a quote is escaped by one more
/// backslash; every other unit is copied.
pub open spec fn escaped(a: Seq<u16>, pending: nat) -> Seq<u16>
    decreases a.len(),
{
    if a.len() == 0 {
        backslashes(2 * pending)
    } else if a[0] == BACKSLASH {
        escaped(a.drop_first(), pending + 1)
    } else if a[0] == QUOTE {
        backslashes(2 * pending + 1) + seq![QUOTE] + escaped(a.drop_first(), 0)
    } else {
        backslashes(pending) + seq![a[0]] + escaped(a.drop_first(), 0)
    }
}

/// The argument `a` between double quotes, with its body escaped.
pub open spec fn quoted_argument(a: Seq<u16>) -> Seq<u16> {
    seq![QUOTE] + escaped(a, 0) + seq![QUOTE]
}

/// The quoted arguments, separated by single spaces.
pub open spec fn joined_arguments(args: Seq<Seq<u16>>) -> Seq<u16>
    decreases args.len(),
{
    if args.len() == 0 {
        Seq::empty()
    } else if args.len() == 1 {
        quoted_argument(args[0])
    } else {
        joined_arguments(args.drop_last()) + seq![SPACE] + quoted_argument(args.last())
    }
}

/// The documented rules by which a Windows command line is split into
/// arguments, read from `s` in the state given by the other parameters:
/// whether a quoted region is open, how many backslashes were read and not yet
/// placed, the argument read so far, whether an argument has begun, and the
/// arguments already complete.
///
/// Space and tab outside quotes end an argument; a run of `2n` backslashes
/// before a quote gives `n` backslashes and the quote opens or closes a quoted
/// region; `2n + 1` backslashes before a quote give `n` backslashes and a
/// literal quote; backslashes before any other unit are literal. The model
/// leaves out the special treatment of the first argument and of two adjacent
/// quotes inside a quoted region; the quoting below produces neither.
pub open spec fn split_from(
    s: Seq<u16>,
    in_quotes: bool,
    pending: nat,
    current: Seq<u16>,
    started: bool,
    done: Seq<Seq<u16>>,
) -> Seq<Seq<u16>>
    decreases s.len(),
{
    if s.len() == 0 {
        if started {
            done.push(current + backslashes(pending))
        } else {
            done
        }
    } else {
        let c = s[0];
        let rest = s.drop_first();
        if c == BACKSLASH {
            split_from(rest, in_quotes, pending + 1, current, true, done)
        } else if c == QUOTE {
            if pending % 2 == 1 {
                split_from(
                    rest,
                    in_quotes,
                    0,
                    current + backslashes(pending / 2) + seq![QUOTE],
                    true,
                    done,
                )
            } else {
                split_from(rest, !in_quotes, 0, current + backslashes(pending / 2), true, done)
            }
        } else if (c == SPACE || c == TAB) && !in_quotes {
            if started {
                split_from(rest, false, 0, Seq::empty(), false, done.push(current + backslashes(pending)))
            } else {
                split_from(rest, false, 0, Seq::empty(), false, done)
            }
        } else {
            split_from(rest, in_quotes, 0, current + backslashes(pending) + seq![c], true, done)
        }
    }
}

/// The arguments of the command line `s` by the documented splitting rules.
pub open spec fn split_arguments(s: Seq<u16>) -> Seq<Seq<u16>> {
    split_from(s, false, 0, Seq::empty(), false, Seq::empty())
}

// ---------------------------------------------------------------------------
// Implementation
// ---------------------------------------------------------------------------

/// Appends `n` backslashes to `v`.
fn push_backslashes(v: &mut Vec<u16>, n: usize)
    ensures
        final(v)@ == old(v)@ + backslashes(n as nat),
{
    let mut i: usize = 0;
    while i < n
        invariant
            i <= n,
            v@ == old(v)@ + backslashes(i as nat),
        decreases n - i,
    {
        v.push(BACKSLASH);
        i = i + 1;
        assert(v@ =~= old(v)@ + backslashes(i as nat));
    }
}

proof fn lemma_escaped_step(a: Seq<u16>, i: int, pending: nat)
    requires
        0 <= i < a.len(),
    ensures
        escaped(a.skip(i), pending) == if a[i] == BACKSLASH {
            escaped(a.skip(i + 1), pending + 1)
        } else if a[i] == QUOTE {
            backslashes(2 * pending + 1) + seq![QUOTE] + escaped(a.skip(i + 1), 0)
        } else {
            backslashes(pending) + seq![a[i]] + escaped(a.skip(i + 1), 0)
        },
{
    assert(a.skip(i).drop_first() =~= a.skip(i + 1));
}

/// Quotes one argument according to the rules consumed by `CommandLineToArgvW`.
pub fn quote_windows_argument(argument: &[u16]) -> (r: Vec<u16>)
    ensures
        r@ == quoted_argument(argument@),
{
    let mut result: Vec<u16> = Vec::new();
    result.push(QUOTE);
    let mut pending: usize = 0;
    let mut i: usize = 0;
    assert(argument@.skip(0) =~= argument@);
    while i < argument.len()
        invariant
            i <= argument@.len(),
            pending <= i,
            seq![QUOTE] + escaped(argument@, 0) == result@ + escaped(
                argument@.skip(i as int),
                pending as nat,
            ),
        decreases argument.len() - i,
    {
        let unit = argument[i];
        proof {
            lemma_escaped_step(argument@, i as int, pending as nat);
        }
        let ghost before = result@;
        let ghost tail = escaped(argument@.skip(i + 1), 0);
        if unit == BACKSLASH {
            pending = pending + 1;
        } else if unit == QUOTE {
            push_backslashes(&mut result, pending);
            push_backslashes(&mut result, pending);
            result.push(BACKSLASH);
            result.push(QUOTE);
            assert(backslashes(pending as nat) + backslashes(pending as nat) + seq![BACKSLASH]
                =~= backslashes(2 * pending as nat + 1));
            assert(before + (backslashes(2 * pending as nat + 1) + seq![QUOTE] + tail) =~= result@
                + tail);
            pending = 0;
        } else {
            push_backslashes(&mut result, pending);
            result.push(unit);
            assert(before + (backslashes(pending as nat) + seq![unit] + tail) =~= result@ + tail);
            pending = 0;
        }
        i = i + 1;
    }
    let ghost before = result@;
    push_backslashes(&mut result, pending);
    push_backslashes(&mut result, pending);
    assert(backslashes(pending as nat) + backslashes(pending as nat) =~= backslashes(
        2 * pending as nat,
    ));
    assert(argument@.skip(i as int) =~= Seq::<u16>::empty());
    result.push(QUOTE);
    assert(result@ =~= seq![QUOTE] + escaped(argument@, 0) + seq![QUOTE]);
    result
}

/// The units of each argument.
pub open spec fn argument_units(arguments: Seq<Vec<u16>>) -> Seq<Seq<u16>> {
    arguments.map_values(|a: Vec<u16>| a@)
}

/// Joins the quoted arguments with single spaces and ends the command line
/// with a NUL unit.
pub fn build_command_line(arguments: &Vec<Vec<u16>>) -> (r: Vec<u16>)
    ensures
        r@ == joined_arguments(argument_units(arguments@)) + seq![0u16],
{
    let ghost args = argument_units(arguments@);
    let mut result: Vec<u16> = Vec::new();
    let mut i: usize = 0;
    assert(args.take(0) =~= Seq::<Seq<u16>>::empty());
    while i < arguments.len()
        invariant
            i <= arguments.len(),
            args == argument_units(arguments@),
            result@ == joined_arguments(args.take(i as int)),
        decreases arguments.len() - i,
    {
        let ghost before = result@;
        if i > 0 {
            result.push(SPACE);
        }
        let mut quoted = quote_windows_argument(arguments[i].as_slice());
        result.append(&mut quoted);
        let ghost next = args.take(i + 1);
        assert(next.drop_last() =~= args.take(i as int));
        assert(next.last() == arguments@[i as int]@);
        if i == 0 {
            assert(result@ =~= quoted_argument(next[0]));
        } else {
            assert(result@ =~= before + seq![SPACE] + quoted_argument(next.last()));
        }
        i = i + 1;
    }
    assert(args.take(arguments.len() as int) =~= args);
    result.push(0u16);
    result
}

/// `value` followed by a NUL unit, as Windows expects a wide string.
pub fn wide_null(value: &[u16]) -> (r: Vec<u16>)
    ensures
        r@ == value@.push(0u16),
{
    let mut result: Vec<u16> = Vec::new();
    let mut i: usize = 0;
    while i < value.len()
        invariant
            i <= value@.len(),
            result@ == value@.take(i as int),
        decreases value.len() - i,
    {
        result.push(value[i]);
        i = i + 1;
        assert(result@ =~= value@.take(i as int));
    }
    assert(value@.take(i as int) =~= value@);
    result.push(0u16);
    result
}

// ---------------------------------------------------------------------------
// Laws
// ---------------------------------------------------------------------------

/// Reading `k` backslashes only adds to the count of pending backslashes.
proof fn lemma_split_backslashes(
    k: nat,
    t: Seq<u16>,
    in_quotes: bool,
    pending: nat,
    current: Seq<u16>,
    done: Seq<Seq<u16>>,
)
    ensures
        split_from(backslashes(k) + t, in_quotes, pending, current, true, done) == split_from(
            t,
            in_quotes,
            pending + k,
            current,
            true,
            done,
        ),
    decreases k,
{
    if k > 0 {
        let s = backslashes(k) + t;
        assert(s[0] == BACKSLASH);
        assert(s.drop_first() =~= backslashes((k - 1) as nat) + t);
        lemma_split_backslashes((k - 1) as nat, t, in_quotes, pending + 1, current, done);
    } else {
        assert(backslashes(k) + t =~= t);
    }
}

/// Inside a quoted region, the escaped body of `a` followed by the closing
/// quote is read back as `a` (after the backslashes still owed), and the
/// quoted region is closed.
proof fn lemma_split_escaped(
    a: Seq<u16>,
    pending: nat,
    current: Seq<u16>,
    t: Seq<u16>,
    done: Seq<Seq<u16>>,
)
    ensures
        split_from(escaped(a, pending) + (seq![QUOTE] + t), true, 0, current, true, done)
            == split_from(t, false, 0, current + backslashes(pending) + a, true, done),
    decreases a.len(),
{
    let tail = seq![QUOTE] + t;
    if a.len() == 0 {
        lemma_split_backslashes(2 * pending, tail, true, 0, current, done);
        assert(tail[0] == QUOTE);
        assert(tail.drop_first() =~= t);
        assert((2 * pending) % 2 == 0 && (2 * pending) / 2 == pending) by (nonlinear_arith);
        assert(current + backslashes(pending) + a =~= current + backslashes(pending));
    } else if a[0] == BACKSLASH {
        lemma_split_escaped(a.drop_first(), pending + 1, current, t, done);
        assert(current + backslashes(pending + 1) + a.drop_first() =~= current + backslashes(
            pending,
        ) + a);
    } else if a[0] == QUOTE {
        let rest = escaped(a.drop_first(), 0) + tail;
        let next = current + backslashes(pending) + seq![QUOTE];
        assert(escaped(a, pending) + tail =~= backslashes(2 * pending + 1) + (seq![QUOTE] + rest));
        lemma_split_backslashes(2 * pending + 1, seq![QUOTE] + rest, true, 0, current, done);
        assert((seq![QUOTE] + rest)[0] == QUOTE);
        assert((seq![QUOTE] + rest).drop_first() =~= rest);
        assert((2 * pending + 1) % 2 == 1 && (2 * pending + 1) / 2 == pending) by (nonlinear_arith);
        lemma_split_escaped(a.drop_first(), 0, next, t, done);
        assert(next + backslashes(0) + a.drop_first() =~= current + backslashes(pending) + a);
    } else {
        let c = a[0];
        let rest = escaped(a.drop_first(), 0) + tail;
        let next = current + backslashes(pending) + seq![c];
        assert(escaped(a, pending) + tail =~= backslashes(pending) + (seq![c] + rest));
        lemma_split_backslashes(pending, seq![c] + rest, true, 0, current, done);
        assert((seq![c] + rest)[0] == c);
        assert((seq![c] + rest).drop_first() =~= rest);
        lemma_split_escaped(a.drop_first(), 0, next, t, done);
        assert(next + backslashes(0) + a.drop_first() =~= current + backslashes(pending) + a);
    }
}

/// A quoted argument is read back as that argument, and the reader is left
/// outside quotes with the argument begun.
proof fn lemma_split_quoted(a: Seq<u16>, t: Seq<u16>, done: Seq<Seq<u16>>)
    ensures
        split_from(quoted_argument(a) + t, false, 0, Seq::empty(), false, done) == split_from(
            t,
            false,
            0,
            a,
            true,
            done,
        ),
{
    let s = quoted_argument(a) + t;
    assert(s[0] == QUOTE);
    assert(s.drop_first() =~= escaped(a, 0) + (seq![QUOTE] + t));
    assert(Seq::<u16>::empty() + backslashes(0) =~= Seq::<u16>::empty());
    lemma_split_escaped(a, 0, Seq::empty(), t, done);
    assert(Seq::<u16>::empty() + backslashes(0) + a =~= a);
}

/// The joined arguments, written from the front.
proof fn lemma_joined_front(args: Seq<Seq<u16>>)
    requires
        args.len() >= 2,
    ensures
        joined_arguments(args) == quoted_argument(args[0]) + (seq![SPACE] + joined_arguments(
            args.drop_first(),
        )),
    decreases args.len(),
{
    let q0 = quoted_argument(args[0]);
    let sp: Seq<u16> = seq![SPACE];
    if args.len() == 2 {
        assert(args.drop_last().len() == 1);
        assert(args.drop_last()[0] == args[0]);
        assert(args.drop_first().len() == 1);
        assert(args.drop_first()[0] == args.last());
        let ql = quoted_argument(args.last());
        assert(joined_arguments(args.drop_last()) == q0);
        assert(joined_arguments(args.drop_first()) == ql);
        assert(joined_arguments(args) == q0 + sp + ql);
        assert(q0 + sp + ql =~= q0 + (sp + ql));
    } else {
        let dl = args.drop_last();
        let df = args.drop_first();
        lemma_joined_front(dl);
        assert(dl[0] == args[0]);
        assert(dl.drop_first() =~= df.drop_last());
        assert(df.last() == args.last());
        let ql = quoted_argument(args.last());
        let mid = joined_arguments(dl.drop_first());
        assert(joined_arguments(df) == mid + sp + ql);
        assert(joined_arguments(dl) == q0 + (sp + mid));
        assert(joined_arguments(args) == joined_arguments(dl) + sp + ql);
        assert(q0 + (sp + mid) + sp + ql =~= q0 + (sp + (mid + sp + ql)));
    }
}

proof fn lemma_split_joined(args: Seq<Seq<u16>>, done: Seq<Seq<u16>>)
    requires
        args.len() > 0,
    ensures
        split_from(joined_arguments(args), false, 0, Seq::empty(), false, done) == done + args,
    decreases args.len(),
{
    let a = args[0];
    if args.len() == 1 {
        lemma_split_quoted(a, Seq::empty(), done);
        assert(quoted_argument(a) + Seq::<u16>::empty() =~= quoted_argument(a));
        assert(a + backslashes(0) =~= a);
        assert(done.push(a) =~= done + args);
    } else {
        let rest = seq![SPACE] + joined_arguments(args.drop_first());
        lemma_joined_front(args);
        lemma_split_quoted(a, rest, done);
        assert(rest[0] == SPACE);
        assert(rest.drop_first() =~= joined_arguments(args.drop_first()));
        assert(a + backslashes(0) =~= a);
        lemma_split_joined(args.drop_first(), done.push(a));
        assert(done.push(a) + args.drop_first() =~= done + args);
    }
}

/// Splitting a quoted argument by the Windows rules gives the argument back.
pub proof fn lemma_quoted_argument_round_trip(a: Seq<u16>)
    ensures
        split_arguments(quoted_argument(a)) == seq![a],
{
    lemma_split_joined(seq![a], Seq::empty());
    assert(Seq::<Seq<u16>>::empty() + seq![a] =~= seq![a]);
}

/// Splitting the joined arguments by the Windows rules gives back every
/// argument, in order: quoting preserves spaces, quotes and backslashes.
pub proof fn lemma_command_line_round_trip(args: Seq<Seq<u16>>)
    requires
        args.len() > 0,
    ensures
        split_arguments(joined_arguments(args)) == args,
{
    lemma_split_joined(args, Seq::empty());
    assert(Seq::<Seq<u16>>::empty() + args =~= args);
}

} // verus!
