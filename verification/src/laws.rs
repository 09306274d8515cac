//! The general guarantees of the argument serializer and the formatter,
//! stated and proved over the abstract builder state.

use vstd::prelude::*;
use crate::command::{
    spec_arguments, spec_config_args, spec_plugin_args, spec_remote_args, spec_remotes_args,
    CommandV,
};
use crate::format::{contains_whitespace, spec_format_argument};
use crate::numeric::{lemma_dec_digits_start_digit, spec_dec_digits, spec_is_digit};
use crate::remote::RemoteAddrV;

verus! {

/// Law: a builder with no configuration file, no endpoints and no plugin
/// serializes to the empty argument sequence.
pub proof fn lemma_empty_builder_no_arguments(c: CommandV)
    requires
        c.config is None,
        c.remotes.len() == 0,
        c.plugin is None,
    ensures
        spec_arguments(c) == Seq::<Seq<char>>::empty(),
{
    assert(spec_remotes_args(c.remotes) =~= Seq::<Seq<char>>::empty());
    assert(spec_arguments(c) =~= Seq::<Seq<char>>::empty());
}

/// The endpoint part of the serialization is three tokens per endpoint.
pub proof fn lemma_remotes_args_len(rs: Seq<RemoteAddrV>)
    ensures
        spec_remotes_args(rs).len() == 3 * rs.len(),
    decreases rs.len(),
{
    if rs.len() > 0 {
        lemma_remotes_args_len(rs.drop_first());
    }
}

/// Within the endpoint part, the `k`-th endpoint's tokens stand at
/// positions `3k`, `3k + 1` and `3k + 2`.
pub proof fn lemma_remotes_args_index(rs: Seq<RemoteAddrV>, k: int)
    requires
        0 <= k < rs.len(),
    ensures
        spec_remotes_args(rs).len() == 3 * rs.len(),
        spec_remotes_args(rs)[3 * k] == "--remote"@,
        spec_remotes_args(rs)[3 * k + 1] == rs[k].address,
        spec_remotes_args(rs)[3 * k + 2] == spec_dec_digits(rs[k].port as int),
    decreases rs.len(),
{
    lemma_remotes_args_len(rs);
    lemma_remotes_args_len(rs.drop_first());
    if k == 0 {
        assert(spec_remote_args(rs[0])[0] == "--remote"@);
    } else {
        lemma_remotes_args_index(rs.drop_first(), k - 1);
        assert(rs.drop_first()[k - 1] == rs[k]);
    }
}

/// Law: serialization preserves the endpoint list exactly. For a builder
/// with endpoints `[e1, ..., eN]`, the argument sequence carries, right
/// after the configuration tokens, the token triple `--remote`, address,
/// decimal port of each endpoint, in configuration order.
pub proof fn lemma_remote_token_positions(c: CommandV, k: int)
    requires
        0 <= k < c.remotes.len(),
    ensures
        ({
            let args = spec_arguments(c);
            let off = spec_config_args(c.config).len() as int;
            &&& args.len() >= off + 3 * c.remotes.len()
            &&& args[off + 3 * k] == "--remote"@
            &&& args[off + 3 * k + 1] == c.remotes[k].address
            &&& args[off + 3 * k + 2] == spec_dec_digits(c.remotes[k].port as int)
        }),
{
    lemma_remotes_args_index(c.remotes, k);
}

/// Law: for a builder with exactly one endpoint, the argument sequence
/// contains the endpoint's address and decimal port as standalone tokens,
/// immediately preceded by `--remote`.
pub proof fn lemma_single_remote_tokens(c: CommandV, e: RemoteAddrV)
    requires
        c.remotes == seq![e],
    ensures
        ({
            let args = spec_arguments(c);
            let off = spec_config_args(c.config).len() as int;
            &&& args.len() >= off + 3
            &&& args[off] == "--remote"@
            &&& args[off + 1] == e.address
            &&& args[off + 2] == spec_dec_digits(e.port as int)
        }),
{
    lemma_remote_token_positions(c, 0);
}

/// How many tokens of `args` equal `t`.
pub open spec fn count_token(args: Seq<Seq<char>>, t: Seq<char>) -> int
    decreases args.len(),
{
    if args.len() == 0 {
        0
    } else {
        (if args[0] == t {
            1int
        } else {
            0int
        }) + count_token(args.drop_first(), t)
    }
}

/// Counting tokens distributes over concatenation.
pub proof fn lemma_count_token_concat(a: Seq<Seq<char>>, b: Seq<Seq<char>>, t: Seq<char>)
    ensures
        count_token(a + b, t) == count_token(a, t) + count_token(b, t),
    decreases a.len(),
{
    if a.len() == 0 {
        assert(a + b =~= b);
    } else {
        assert((a + b).drop_first() =~= a.drop_first() + b);
        assert((a + b)[0] == a[0]);
        lemma_count_token_concat(a.drop_first(), b, t);
    }
}

/// A decimal port token never equals `--remote`: it starts with a digit.
proof fn lemma_port_token_not_remote(port: u16)
    ensures
        spec_dec_digits(port as int) != "--remote"@,
{
    reveal_strlit("--remote");
    lemma_dec_digits_start_digit(port as int);
    assert(!spec_is_digit("--remote"@[0]));
}

/// The endpoint part holds one `--remote` per endpoint, provided no
/// address is itself the text `--remote`.
proof fn lemma_count_remote_in_remotes(rs: Seq<RemoteAddrV>)
    requires
        forall|j: int| 0 <= j < rs.len() ==> (#[trigger] rs[j]).address != "--remote"@,
    ensures
        count_token(spec_remotes_args(rs), "--remote"@) == rs.len(),
    decreases rs.len(),
{
    if rs.len() == 0 {
    } else {
        lemma_count_remote_in_remotes(rs.drop_first());
        lemma_count_token_concat(spec_remote_args(rs[0]), spec_remotes_args(rs.drop_first()),
            "--remote"@);
        lemma_port_token_not_remote(rs[0].port);
        let t = "--remote"@;
        let triple = spec_remote_args(rs[0]);
        assert(triple.drop_first() =~= seq![rs[0].address, spec_dec_digits(rs[0].port as int)]);
        assert(triple.drop_first().drop_first() =~= seq![spec_dec_digits(rs[0].port as int)]);
        assert(triple.drop_first().drop_first().drop_first() =~= Seq::<Seq<char>>::empty());
        assert(count_token(triple.drop_first().drop_first().drop_first(), t) == 0);
        assert(count_token(triple.drop_first().drop_first(), t) == 0);
        assert(count_token(triple.drop_first(), t) == 0);
        assert(count_token(triple, t) == 1);
    }
}

/// Law: the argument sequence of a builder with N endpoints holds exactly
/// N occurrences of the token `--remote`, provided no other configured
/// text (an address, the configuration path, the plugin path or a plugin
/// argument) is itself the token `--remote`.
pub proof fn lemma_remote_token_count(c: CommandV)
    requires
        forall|j: int| 0 <= j < c.remotes.len() ==> (#[trigger] c.remotes[j]).address
            != "--remote"@,
        c.config matches Some(p) ==> p != "--remote"@,
        c.plugin matches Some(pl) ==> pl.path != "--remote"@,
        c.plugin matches Some(pl) ==> forall|j: int|
            0 <= j < pl.args.len() ==> #[trigger] pl.args[j] != "--remote"@,
    ensures
        count_token(spec_arguments(c), "--remote"@) == c.remotes.len(),
{
    let t = "--remote"@;
    reveal_strlit("--remote");
    reveal_strlit("--config");
    reveal_strlit("--plugin");
    lemma_count_token_concat(
        spec_config_args(c.config) + spec_remotes_args(c.remotes),
        spec_plugin_args(c.plugin),
        t,
    );
    lemma_count_token_concat(spec_config_args(c.config), spec_remotes_args(c.remotes), t);
    lemma_count_remote_in_remotes(c.remotes);
    match c.config {
        Some(p) => {
            assert("--config"@[2] != t[2]);
            let part = spec_config_args(c.config);
            assert(part.drop_first() =~= seq![p]);
            assert(part.drop_first().drop_first() =~= Seq::<Seq<char>>::empty());
            assert(count_token(part.drop_first().drop_first(), t) == 0);
            assert(count_token(part.drop_first(), t) == 0);
            assert(count_token(part, t) == 0);
        },
        None => {
            assert(count_token(spec_config_args(c.config), t) == 0);
        },
    }
    match c.plugin {
        Some(pl) => {
            assert("--plugin"@[2] != t[2]);
            let part = spec_plugin_args(c.plugin);
            assert(part =~= seq!["--plugin"@, pl.path] + pl.args);
            lemma_count_token_concat(seq!["--plugin"@, pl.path], pl.args, t);
            let head = seq!["--plugin"@, pl.path];
            assert(head.drop_first() =~= seq![pl.path]);
            assert(head.drop_first().drop_first() =~= Seq::<Seq<char>>::empty());
            assert(count_token(head.drop_first().drop_first(), t) == 0);
            assert(count_token(head.drop_first(), t) == 0);
            assert(count_token(head, t) == 0);
            lemma_count_token_none(pl.args, t);
        },
        None => {
            assert(count_token(spec_plugin_args(c.plugin), t) == 0);
        },
    }
}

/// A sequence with no occurrence of `t` counts zero.
proof fn lemma_count_token_none(args: Seq<Seq<char>>, t: Seq<char>)
    requires
        forall|j: int| 0 <= j < args.len() ==> #[trigger] args[j] != t,
    ensures
        count_token(args, t) == 0,
    decreases args.len(),
{
    if args.len() > 0 {
        assert(forall|j: int|
            0 <= j < args.drop_first().len() ==> #[trigger] args.drop_first()[j] != t);
        lemma_count_token_none(args.drop_first(), t);
    }
}

/// Law: a rendered argument is wrapped in double quotes exactly when it
/// contains a whitespace character, and is rendered verbatim otherwise.
pub proof fn lemma_argument_quoting(arg: Seq<char>)
    ensures
        contains_whitespace(arg) ==> spec_format_argument(arg) == seq![' ', '"'] + arg
            + seq!['"'],
        !contains_whitespace(arg) ==> spec_format_argument(arg) == seq![' '] + arg,
{
}

/// Law: serialization is a deterministic function of the builder state —
/// equal states always serialize to identical argument sequences.
pub proof fn lemma_arguments_deterministic(c1: CommandV, c2: CommandV)
    requires
        c1 == c2,
    ensures
        spec_arguments(c1) == spec_arguments(c2),
{
}

/// Law: the binary path plays no part in serialization — builders that
/// differ only in their binary serialize identically.
pub proof fn lemma_binary_ignored_by_arguments(c1: CommandV, c2: CommandV)
    requires
        c1.config == c2.config,
        c1.remotes == c2.remotes,
        c1.plugin == c2.plugin,
    ensures
        spec_arguments(c1) == spec_arguments(c2),
{
}

} // verus!
