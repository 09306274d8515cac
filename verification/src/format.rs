//! Readable rendering of a full invocation, for logs and diagnostics.

use vstd::prelude::*;
use crate::command::{spec_arguments, string_views, CommandV, OpenVpnCommand};

verus! {

/// The characters Rust's `char::is_whitespace` accepts: the Unicode
/// White_Space set.
pub open spec fn spec_is_whitespace(c: char) -> bool {
    let u = c as u32;
    ||| u == 9
    ||| u == 10
    ||| u == 11
    ||| u == 12
    ||| u == 13
    ||| u == 32
    ||| u == 0x85
    ||| u == 0xA0
    ||| u == 0x1680
    ||| (0x2000 <= u && u <= 0x200A)
    ||| u == 0x2028
    ||| u == 0x2029
    ||| u == 0x202F
    ||| u == 0x205F
    ||| u == 0x3000
}

/// Whether some character of `s` is whitespace.
pub open spec fn contains_whitespace(s: Seq<char>) -> bool {
    exists|i: int| 0 <= i < s.len() && spec_is_whitespace(#[trigger] s[i])
}

/// One rendered argument: a leading space, then the argument, wrapped in
/// double quotes exactly when it contains whitespace.
pub open spec fn spec_format_argument(arg: Seq<char>) -> Seq<char> {
    if contains_whitespace(arg) {
        seq![' ', '"'] + arg + seq!['"']
    } else {
        seq![' '] + arg
    }
}

/// The rendered argument tokens, concatenated in order.
pub open spec fn spec_format_args(args: Seq<Seq<char>>) -> Seq<char>
    decreases args.len(),
{
    if args.len() == 0 {
        Seq::empty()
    } else {
        spec_format_argument(args[0]) + spec_format_args(args.drop_first())
    }
}

/// The one-line rendering of a builder state: the binary, then each
/// serialized argument rendered by `spec_format_argument`.
pub open spec fn spec_display(c: CommandV) -> Seq<char> {
    c.openvpn_bin + spec_format_args(spec_arguments(c))
}

/// Rendering one more argument appends its rendered form.
pub proof fn lemma_format_args_snoc(args: Seq<Seq<char>>)
    requires
        args.len() > 0,
    ensures
        spec_format_args(args) == spec_format_args(args.drop_last()) + spec_format_argument(
            args.last(),
        ),
    decreases args.len(),
{
    if args.len() == 1 {
        assert(spec_format_args(args.drop_first()) =~= Seq::<char>::empty());
        assert(spec_format_args(args.drop_last()) =~= Seq::<char>::empty());
        assert(args.last() == args[0]);
        assert(spec_format_args(args) =~= spec_format_args(args.drop_last())
            + spec_format_argument(args.last()));
    } else {
        lemma_format_args_snoc(args.drop_first());
        assert(args.drop_first().drop_last() =~= args.drop_last().drop_first());
        assert(args.drop_first().last() == args.last());
        assert(args.drop_last()[0] == args[0]);
        assert(spec_format_args(args) =~= spec_format_args(args.drop_last())
            + spec_format_argument(args.last()));
    }
}

/// Whether `c` is a whitespace character.
fn is_whitespace_char(c: char) -> (r: bool)
    ensures
        r == spec_is_whitespace(c),
{
    let u = c as u32;
    u == 9 || u == 10 || u == 11 || u == 12 || u == 13 || u == 32 || u == 0x85 || u == 0xA0 || u
        == 0x1680 || (0x2000 <= u && u <= 0x200A) || u == 0x2028 || u == 0x2029 || u == 0x202F || u
        == 0x205F || u == 0x3000
}

/// Whether `s` contains a whitespace character.
fn str_contains_whitespace(s: &str) -> (r: bool)
    ensures
        r == contains_whitespace(s@),
{
    let n = s.unicode_len();
    let mut i: usize = 0;
    while i < n
        invariant
            i <= n,
            n == s@.len(),
            forall|j: int| 0 <= j < i ==> !spec_is_whitespace(#[trigger] s@[j]),
        decreases n - i,
    {
        if is_whitespace_char(s.get_char(i)) {
            return true;
        }
        i = i + 1;
    }
    false
}

/// Appends the rendering of one argument to `out`: a leading space, the
/// argument text, and double quotes around it when it contains whitespace.
pub fn write_argument(out: &mut String, arg: &str)
    ensures
        final(out)@ == old(out)@ + spec_format_argument(arg@),
{
    out.append(" ");
    let quote = str_contains_whitespace(arg);
    if quote {
        out.append("\"");
    }
    out.append(arg);
    if quote {
        out.append("\"");
    }
    proof {
        reveal_strlit(" ");
        reveal_strlit("\"");
        assert(out@ =~= old(out)@ + spec_format_argument(arg@));
    }
}

impl OpenVpnCommand {
    /// One line of text for the full invocation: the binary, then each
    /// argument preceded by a space and double-quoted when it contains
    /// whitespace. For logs and diagnostics only; nothing is escaped.
    pub fn display(&self) -> (r: String)
        ensures
            r@ == spec_display(self@),
    {
        let mut out = self.binary().to_owned();
        let args = self.get_arguments();
        let ghost sargs = spec_arguments(self@);
        let n = args.len();
        proof {
            assert(n == sargs.len());
            assert(out@ =~= self@.openvpn_bin + spec_format_args(sargs.subrange(0, 0)));
        }
        let mut i: usize = 0;
        while i < n
            invariant
                i <= n,
                n == sargs.len(),
                n == args@.len(),
                string_views(args@) == sargs,
                out@ == self@.openvpn_bin + spec_format_args(sargs.subrange(0, i as int)),
            decreases n - i,
        {
            write_argument(&mut out, args[i].as_str());
            proof {
                let pre = sargs.subrange(0, (i + 1) as int);
                assert(pre.drop_last() =~= sargs.subrange(0, i as int));
                assert(pre.last() == sargs[i as int]);
                assert(args@[i as int]@ == sargs[i as int]);
                lemma_format_args_snoc(pre);
                assert(out@ =~= self@.openvpn_bin + spec_format_args(pre));
            }
            i = i + 1;
        }
        proof {
            assert(sargs.subrange(0, n as int) =~= sargs);
        }
        out
    }
}

} // verus!
