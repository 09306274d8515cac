//! The OpenVPN process builder and its argument serializer.

use vstd::prelude::*;
use crate::numeric::{spec_dec_digits, u16_to_decimal};
use crate::remote::{remote_views, RemoteAddr, RemoteAddrV, ResolveError, ToRemoteAddrs};

verus! {

/// Abstract value of a plugin descriptor: path and ordered arguments.
#[verifier::ext_equal]
pub ghost struct PluginV {
    pub path: Seq<char>,
    pub args: Seq<Seq<char>>,
}

/// Abstract state of a command builder.
#[verifier::ext_equal]
pub ghost struct CommandV {
    pub openvpn_bin: Seq<char>,
    pub config: Option<Seq<char>>,
    pub remotes: Seq<RemoteAddrV>,
    pub plugin: Option<PluginV>,
    pub pipe_output: bool,
}

/// The texts of a sequence of strings, in order.
pub open spec fn string_views(v: Seq<String>) -> Seq<Seq<char>> {
    Seq::new(v.len(), |i: int| v[i]@)
}

/// Argument tokens contributed by the optional configuration file.
pub open spec fn spec_config_args(config: Option<Seq<char>>) -> Seq<Seq<char>> {
    match config {
        Some(path) => seq!["--config"@, path],
        None => Seq::empty(),
    }
}

/// Argument tokens contributed by one endpoint.
pub open spec fn spec_remote_args(r: RemoteAddrV) -> Seq<Seq<char>> {
    seq!["--remote"@, r.address, spec_dec_digits(r.port as int)]
}

/// Argument tokens contributed by the endpoint list, in order.
pub open spec fn spec_remotes_args(rs: Seq<RemoteAddrV>) -> Seq<Seq<char>>
    decreases rs.len(),
{
    if rs.len() == 0 {
        Seq::empty()
    } else {
        spec_remote_args(rs[0]) + spec_remotes_args(rs.drop_first())
    }
}

/// Argument tokens contributed by the optional plugin descriptor.
pub open spec fn spec_plugin_args(plugin: Option<PluginV>) -> Seq<Seq<char>> {
    match plugin {
        Some(p) => seq!["--plugin"@, p.path] + p.args,
        None => Seq::empty(),
    }
}

/// The full serialized argument sequence of a builder state: the
/// configuration tokens, then one `--remote <addr> <port>` triple per
/// endpoint in order, then the plugin tokens.
pub open spec fn spec_arguments(c: CommandV) -> Seq<Seq<char>> {
    spec_config_args(c.config) + spec_remotes_args(c.remotes) + spec_plugin_args(c.plugin)
}

/// Serializing one more endpoint appends its token triple.
pub proof fn lemma_remotes_args_snoc(rs: Seq<RemoteAddrV>)
    requires
        rs.len() > 0,
    ensures
        spec_remotes_args(rs) == spec_remotes_args(rs.drop_last()) + spec_remote_args(rs.last()),
    decreases rs.len(),
{
    if rs.len() == 1 {
        assert(spec_remotes_args(rs.drop_first()) =~~= Seq::<Seq<char>>::empty());
        assert(spec_remotes_args(rs.drop_last()) =~~= Seq::<Seq<char>>::empty());
        assert(rs.last() == rs[0]);
        assert(spec_remotes_args(rs) =~~= spec_remotes_args(rs.drop_last()) + spec_remote_args(
            rs.last(),
        ));
    } else {
        lemma_remotes_args_snoc(rs.drop_first());
        assert(rs.drop_first().drop_last() =~= rs.drop_last().drop_first());
        assert(rs.drop_first().last() == rs.last());
        assert(rs.drop_last()[0] == rs[0]);
        assert(spec_remotes_args(rs) =~~= spec_remotes_args(rs.drop_last()) + spec_remote_args(
            rs.last(),
        ));
    }
}

/// Appends one token to an argument vector.
fn push_arg(args: &mut Vec<String>, token: String)
    ensures
        string_views(final(args)@) == string_views(old(args)@) + seq![token@],
{
    let ghost tv = token@;
    args.push(token);
    proof {
        assert(string_views(args@) =~~= string_views(old(args)@) + seq![tv]);
    }
}

/// Where the spawned process's standard output and error streams go.
pub enum OutputPolicy {
    /// Connected to pipes readable by the caller.
    Piped,
    /// Redirected to a null sink.
    Null,
}

/// An OpenVPN process builder, providing control over the different
/// arguments that the OpenVPN binary accepts.
pub struct OpenVpnCommand {
    openvpn_bin: String,
    config: Option<String>,
    remotes: Vec<RemoteAddr>,
    plugin: Option<(String, Vec<String>)>,
    pipe_output: bool,
}

impl View for OpenVpnCommand {
    type V = CommandV;

    closed spec fn view(&self) -> CommandV {
        CommandV {
            openvpn_bin: self.openvpn_bin@,
            config: match self.config {
                Some(path) => Some(path@),
                None => None,
            },
            remotes: remote_views(self.remotes@),
            plugin: match self.plugin {
                Some(p) => Some(PluginV { path: p.0@, args: string_views(p.1@) }),
                None => None,
            },
            pipe_output: self.pipe_output,
        }
    }
}

impl OpenVpnCommand {
    /// Constructs a new `OpenVpnCommand` for launching OpenVPN processes
    /// from the binary at `openvpn_bin`: no configuration file, no
    /// endpoints, no plugin, output captured.
    pub fn new(openvpn_bin: &str) -> (r: Self)
        ensures
            r@ == (CommandV {
                openvpn_bin: openvpn_bin@,
                config: None,
                remotes: Seq::empty(),
                plugin: None,
                pipe_output: true,
            }),
    {
        let r = OpenVpnCommand {
            openvpn_bin: openvpn_bin.to_owned(),
            config: None,
            remotes: Vec::new(),
            plugin: None,
            pipe_output: true,
        };
        proof {
            assert(r@.remotes =~= Seq::<RemoteAddrV>::empty());
            assert(r@ =~~= (CommandV {
                openvpn_bin: openvpn_bin@,
                config: None,
                remotes: Seq::empty(),
                plugin: None,
                pipe_output: true,
            }));
        }
        r
    }

    /// Sets what configuration file will be given to OpenVPN.
    pub fn config(&mut self, path: &str)
        ensures
            final(self)@ == (CommandV { config: Some(path@), ..old(self)@ }),
    {
        self.config = Some(path.to_owned());
        proof {
            assert(self@ =~~= (CommandV { config: Some(path@), ..old(self)@ }));
        }
    }

    /// Sets the endpoints that OpenVPN will connect to, in order. On
    /// resolution failure the endpoint list is left unchanged.
    pub fn remotes<A: ToRemoteAddrs>(&mut self, remotes: A) -> (r: Result<(), ResolveError>)
        ensures
            match r {
                Ok(_) => remotes.spec_resolved() is Some && final(self)@ == (CommandV {
                    remotes: remotes.spec_resolved().unwrap(),
                    ..old(self)@
                }),
                Err(_) => remotes.spec_resolved() is None && final(self)@ == old(self)@,
            },
    {
        match remotes.to_remote_addrs() {
            Ok(v) => {
                self.remotes = v;
                proof {
                    assert(self@ =~~= (CommandV {
                        remotes: remote_views(self.remotes@),
                        ..old(self)@
                    }));
                }
                Ok(())
            },
            Err(e) => Err(e),
        }
    }

    /// Sets a plugin and its arguments that OpenVPN will be started with.
    pub fn plugin(&mut self, path: &str, args: Vec<String>)
        ensures
            final(self)@ == (CommandV {
                plugin: Some(PluginV { path: path@, args: string_views(args@) }),
                ..old(self)@
            }),
    {
        self.plugin = Some((path.to_owned(), args));
        proof {
            assert(self@ =~~= (CommandV {
                plugin: Some(PluginV { path: path@, args: string_views(args@) }),
                ..old(self)@
            }));
        }
    }

    /// If piping the standard streams, stdout and stderr will be available
    /// to the parent process. This is the default behavior. Pass false for
    /// the equivalent of attaching the child streams to a null sink.
    pub fn pipe_output(&mut self, pipe_output: bool)
        ensures
            final(self)@ == (CommandV { pipe_output: pipe_output, ..old(self)@ }),
    {
        self.pipe_output = pipe_output;
        proof {
            assert(self@ =~~= (CommandV { pipe_output: pipe_output, ..old(self)@ }));
        }
    }

    /// The path of the binary this builder launches.
    pub fn binary(&self) -> (r: &str)
        ensures
            r@ == self@.openvpn_bin,
    {
        self.openvpn_bin.as_str()
    }

    /// The stream policy the builder's capture flag asks for.
    pub fn get_output_pipe_policy(&self) -> (r: OutputPolicy)
        ensures
            (r is Piped) == self@.pipe_output,
    {
        if self.pipe_output {
            OutputPolicy::Piped
        } else {
            OutputPolicy::Null
        }
    }

    /// Returns all arguments that the subprocess would be spawned with.
    pub fn get_arguments(&self) -> (r: Vec<String>)
        ensures
            string_views(r@) == spec_arguments(self@),
    {
        let ghost cv = self@;
        let mut args: Vec<String> = Vec::new();
        proof {
            assert(string_views(args@) =~~= Seq::<Seq<char>>::empty());
        }
        match &self.config {
            Some(path) => {
                push_arg(&mut args, "--config".to_owned());
                push_arg(&mut args, path.clone());
            },
            None => {},
        }
        proof {
            assert(string_views(args@) =~~= spec_config_args(cv.config));
        }
        let n = self.remotes.len();
        let mut i: usize = 0;
        while i < n
            invariant
                i <= n,
                n == cv.remotes.len(),
                cv.remotes == remote_views(self.remotes@),
                cv == self@,
                string_views(args@) == spec_config_args(cv.config) + spec_remotes_args(
                    cv.remotes.subrange(0, i as int),
                ),
            decreases n - i,
        {
            let rem = &self.remotes[i];
            push_arg(&mut args, "--remote".to_owned());
            push_arg(&mut args, rem.address().to_owned());
            push_arg(&mut args, u16_to_decimal(rem.port()));
            proof {
                let pre = cv.remotes.subrange(0, (i + 1) as int);
                assert(pre.drop_last() =~= cv.remotes.subrange(0, i as int));
                assert(pre.last() == cv.remotes[i as int]);
                lemma_remotes_args_snoc(pre);
                assert(string_views(args@) =~~= spec_config_args(cv.config) + spec_remotes_args(
                    pre,
                ));
            }
            i = i + 1;
        }
        proof {
            assert(cv.remotes.subrange(0, n as int) =~= cv.remotes);
        }
        match &self.plugin {
            Some(p) => {
                push_arg(&mut args, "--plugin".to_owned());
                push_arg(&mut args, p.0.clone());
                let ghost base = spec_config_args(cv.config) + spec_remotes_args(cv.remotes);
                let ghost pv = PluginV { path: p.0@, args: string_views(p.1@) };
                proof {
                    assert(string_views(args@) =~~= base + seq!["--plugin"@, pv.path]);
                }
                let m = p.1.len();
                let mut j: usize = 0;
                while j < m
                    invariant
                        j <= m,
                        m == pv.args.len(),
                        pv.args == string_views(p.1@),
                        string_views(args@) == base + seq!["--plugin"@, pv.path] + pv.args.subrange(
                            0,
                            j as int,
                        ),
                    decreases m - j,
                {
                    push_arg(&mut args, p.1[j].clone());
                    proof {
                        assert(string_views(args@) =~~= base + seq!["--plugin"@, pv.path]
                            + pv.args.subrange(0, (j + 1) as int));
                    }
                    j = j + 1;
                }
                proof {
                    assert(pv.args.subrange(0, m as int) =~= pv.args);
                    assert(string_views(args@) =~~= spec_arguments(cv));
                }
            },
            None => {
                proof {
                    assert(string_views(args@) =~~= spec_arguments(cv));
                }
            },
        }
        args
    }
}

} // verus!
