//! Daemon policy: which peers may connect, which shells may run, and how
//! the daemon's configuration is assembled from its settings.

use vstd::prelude::*;
use vstd::string::StringExecFns;
use vstd::string::StringSliceAdditionalSpecFns;

use crate::errors::ErrorKind;
use crate::hexfmt::hex_bytes_decode;
use crate::keys::{any_secret_key, decodes_to_public_key, HexConvert, PeerKey, SecretKeyBytes};
use crate::proto::{default_term_str, ClientOpt};

verus! {

/// Whether a string list holds a string with this content.
pub open spec fn contains_str(list: Seq<Seq<char>>, s: Seq<char>) -> bool {
    exists|i: int| 0 <= i < list.len() && list[i] == s
}

/// Tests whether a string list holds a string equal to `s`.
pub fn contains_string(list: &Vec<String>, s: &String) -> (r: bool)
    ensures
        r == contains_str(list.deep_view(), s@),
{
    let ghost dv = list.deep_view();
    let mut i: usize = 0;
    while i < list.len()
        invariant
            i <= list@.len(),
            dv == list.deep_view(),
            dv.len() == list@.len(),
            forall|j: int| 0 <= j < i ==> dv[j] != s@,
        decreases list@.len() - i,
    {
        proof {
            assert(dv[i as int] == list@[i as int]@);
        }
        if list[i].eq(s) {
            return true;
        }
        i = i + 1;
    }
    false
}

/// The access policy of the daemon: serve any peer, or only the peers whose
/// public keys are on the allow-list. Serving any peer is legitimate but
/// the daemon warns about it at startup.
#[derive(Clone, Debug)]
pub enum P2TermdAccess {
    /// Any authenticated peer may connect.
    Any,
    /// Only the listed peers may connect.
    AllowedNodes(Vec<PeerKey>),
}

impl P2TermdAccess {
    /// Whether policy admits a peer with this key.
    pub open spec fn allows(&self, key: Seq<u8>) -> bool {
        match self {
            P2TermdAccess::Any => true,
            P2TermdAccess::AllowedNodes(list) => exists|i: int|
                0 <= i < list@.len() && list@[i]@ == key,
        }
    }

    /// The access gate: admits every peer under `Any`, and exactly the
    /// listed peers otherwise.
    #[verifier::loop_isolation(false)]
    pub fn is_allowed(&self, peer: &PeerKey) -> (r: bool)
        ensures
            r == self.allows(peer@),
    {
        match self {
            P2TermdAccess::Any => true,
            P2TermdAccess::AllowedNodes(list) => {
                let mut i: usize = 0;
                while i < list.len()
                    invariant
                        i <= list@.len(),
                        forall|j: int| 0 <= j < i ==> list@[j]@ != peer@,
                    decreases list@.len() - i,
                {
                    if list[i].matches(peer) {
                        proof {
                            assert(list@[i as int]@ == peer@);
                        }
                        return true;
                    }
                    i = i + 1;
                }
                false
            },
        }
    }
}

/// Whether an access policy is the allow-list built from these peer hex
/// strings: one key per entry, in order, each the decoding of its entry.
pub open spec fn access_from_peers(a: P2TermdAccess, peers: Seq<Seq<char>>) -> bool {
    match a {
        P2TermdAccess::Any => false,
        P2TermdAccess::AllowedNodes(keys) => keys@.len() == peers.len() && forall|i: int|
            0 <= i < keys@.len() ==> #[trigger] keys@[i].wf() && Some(keys@[i]@)
                == hex_bytes_decode(vstd::utf8::encode_utf8(peers[i])),
    }
}

/// Builds the access policy from the configured list of peer key hex
/// strings: no list or an empty list admits any peer; otherwise every entry
/// must be 64 hex digits naming a valid public key.
pub fn create_access(allowed_peers: Option<Vec<String>>) -> (r: Result<P2TermdAccess, ErrorKind>)
    ensures
        (allowed_peers is None || allowed_peers->Some_0@.len() == 0) ==> r == Ok::<
            P2TermdAccess,
            ErrorKind,
        >(P2TermdAccess::Any),
        allowed_peers is Some && allowed_peers->Some_0@.len() > 0 ==> (r is Ok <==> forall|i: int|
            0 <= i < allowed_peers->Some_0@.len() ==> decodes_to_public_key(
                vstd::utf8::encode_utf8(allowed_peers->Some_0.deep_view()[i]),
            )),
        allowed_peers is Some && allowed_peers->Some_0@.len() > 0 && r is Ok ==> access_from_peers(
            r->Ok_0,
            allowed_peers->Some_0.deep_view(),
        ),
        r is Err ==> r == Err::<P2TermdAccess, ErrorKind>(ErrorKind::Config),
{
    let peers = match allowed_peers {
        None => {
            return Ok(P2TermdAccess::Any);
        },
        Some(peers) => peers,
    };
    if peers.len() == 0 {
        return Ok(P2TermdAccess::Any);
    }
    match parse_peer_keys(&peers) {
        Ok(keys) => Ok(P2TermdAccess::AllowedNodes(keys)),
        Err(e) => Err(e),
    }
}

/// Parses every entry of a peer hex list into a key; one bad entry fails
/// the whole list.
#[verifier::loop_isolation(false)]
fn parse_peer_keys(peers: &Vec<String>) -> (r: Result<Vec<PeerKey>, ErrorKind>)
    ensures
        r is Ok <==> forall|i: int|
            0 <= i < peers@.len() ==> decodes_to_public_key(
                vstd::utf8::encode_utf8(peers.deep_view()[i]),
            ),
        r matches Ok(keys) ==> keys@.len() == peers@.len() && forall|i: int|
            0 <= i < keys@.len() ==> #[trigger] keys@[i].wf() && Some(keys@[i]@)
                == hex_bytes_decode(vstd::utf8::encode_utf8(peers.deep_view()[i])),
        r is Err ==> r == Err::<Vec<PeerKey>, ErrorKind>(ErrorKind::Config),
{
    let ghost dv = peers.deep_view();
    let mut keys: Vec<PeerKey> = Vec::new();
    let mut i: usize = 0;
    while i < peers.len()
        invariant
            i <= peers@.len(),
            keys@.len() == i,
            forall|j: int|
                0 <= j < i ==> #[trigger] keys@[j].wf() && Some(keys@[j]@) == hex_bytes_decode(
                    vstd::utf8::encode_utf8(dv[j]),
                ),
            forall|j: int|
                0 <= j < i ==> decodes_to_public_key(vstd::utf8::encode_utf8(dv[j])),
        decreases peers@.len() - i,
    {
        proof {
            assert(dv[i as int] == peers@[i as int]@);
        }
        match PeerKey::try_from_hex(peers[i].as_str().as_bytes()) {
            Ok(key) => {
                keys.push(key);
            },
            Err(_) => {
                proof {
                    assert(!decodes_to_public_key(vstd::utf8::encode_utf8(dv[i as int])));
                }
                return Err(ErrorKind::Config);
            },
        }
        i = i + 1;
    }
    Ok(keys)
}

/// The daemon's shell policy: the default shell and the shells a client may
/// request. The default is always on the list.
#[derive(Clone, Debug, PartialEq, Eq)]
pub struct ShellCfg {
    /// The shell run when the client names none.
    pub default_shell: String,
    /// Every shell a client may request, the default included.
    pub allowed_shells: Vec<String>,
}

/// The default shell the daemon settles on: the configured one if present,
/// else the host's `SHELL` value if present, else `/bin/bash`.
pub open spec fn resolved_default_shell(
    configured: Option<Seq<char>>,
    env_shell: Option<Seq<char>>,
) -> Seq<char> {
    match configured {
        Some(d) => d,
        None => match env_shell {
            Some(e) => e,
            None => "/bin/bash"@,
        },
    }
}

/// Whether a shell policy is the one assembled from these settings: the
/// default resolved in order, and the allowed list extended by the default
/// exactly when it was missing.
pub open spec fn shell_cfg_from(
    r: ShellCfg,
    default_shell: Option<Seq<char>>,
    env_shell: Option<Seq<char>>,
    allowed: Seq<Seq<char>>,
) -> bool {
    &&& r.default_shell@ == resolved_default_shell(default_shell, env_shell)
    &&& r.allowed_shells.deep_view() == if contains_str(allowed, r.default_shell@) {
        allowed
    } else {
        allowed.push(r.default_shell@)
    }
}

impl ShellCfg {
    /// Whether policy allows this shell.
    pub open spec fn shell_allowed(&self, shell: Seq<char>) -> bool {
        contains_str(self.allowed_shells.deep_view(), shell)
    }

    /// Assembles the shell policy: resolves the default shell from the
    /// configured value, the host's `SHELL` environment value, or
    /// `/bin/bash`, in that order, and appends it to the allowed list when
    /// it is not already there.
    pub fn from_overrides(
        default_shell: Option<String>,
        env_shell: Option<String>,
        allowed_shells: Vec<String>,
    ) -> (r: ShellCfg)
        ensures
            shell_cfg_from(
                r,
                default_shell.deep_view(),
                env_shell.deep_view(),
                allowed_shells.deep_view(),
            ),
            r.shell_allowed(r.default_shell@),
    {
        let default_shell = match default_shell {
            Some(d) => d,
            None => match env_shell {
                Some(e) => e,
                None => String::from_str("/bin/bash"),
            },
        };
        let mut allowed_shells = allowed_shells;
        let ghost dv = allowed_shells.deep_view();
        if !contains_string(&allowed_shells, &default_shell) {
            let d = default_shell.clone();
            allowed_shells.push(d);
            proof {
                assert(allowed_shells.deep_view() =~= dv.push(default_shell@));
            }
        }
        let r = ShellCfg { default_shell, allowed_shells };
        proof {
            let rdv = r.allowed_shells.deep_view();
            if contains_str(dv, r.default_shell@) {
                assert(contains_str(rdv, r.default_shell@));
            } else {
                assert(rdv[rdv.len() - 1] == r.default_shell@);
                assert(contains_str(rdv, r.default_shell@));
            }
        }
        r
    }

    /// Validates a client's options against policy: a request naming a
    /// shell that is not allowed is refused; naming none is always fine.
    pub fn validate_opt(&self, client_opt: &ClientOpt) -> (r: Result<(), ErrorKind>)
        ensures
            r is Ok <==> (client_opt.shell is None || self.shell_allowed(
                client_opt.shell->Some_0@,
            )),
            r is Err ==> r == Err::<(), ErrorKind>(ErrorKind::ShellPolicy),
    {
        match &client_opt.shell {
            None => Ok(()),
            Some(shell) => {
                if contains_string(&self.allowed_shells, shell) {
                    Ok(())
                } else {
                    Err(ErrorKind::ShellPolicy)
                }
            },
        }
    }
}

/// The shell a session runs: the one the client named, else the policy's
/// default.
pub fn effective_shell(opt_shell: &Option<String>, default_shell: &String) -> (r: String)
    ensures
        opt_shell is Some ==> r@ == opt_shell->Some_0@,
        opt_shell is None ==> r@ == default_shell@,
{
    match opt_shell {
        Some(shell) => shell.clone(),
        None => default_shell.clone(),
    }
}

/// The argument that makes the spawned shell a login shell.
pub open spec fn login_arg_str() -> Seq<char> {
    "-l"@
}

/// Everything the PTY layer needs to spawn the session's shell: the
/// program, its single `-l` argument, the `TERM` value, and the working
/// directory when the client named one.
#[derive(Clone, Debug, PartialEq, Eq)]
pub struct ShellCommand {
    /// The shell executable.
    pub program: String,
    /// The shell's arguments: exactly `-l`, so it runs as a login shell.
    pub args: Vec<String>,
    /// The value the child's `TERM` environment variable is set to.
    pub term: String,
    /// The child's working directory, when the client named one.
    pub cwd: Option<String>,
}

/// Builds the command for a session's shell: a login shell (`-l`), `TERM`
/// from the client's option or the default, and the client's working
/// directory if any.
pub fn build_shell_command(program: String, cwd: Option<String>, term: Option<String>) -> (c:
    ShellCommand)
    ensures
        c.program == program,
        c.args@.len() == 1 && c.args@[0]@ == login_arg_str(),
        term is Some ==> c.term@ == term->Some_0@,
        term is None ==> c.term@ == default_term_str(),
        c.cwd == cwd,
{
    let term = match term {
        Some(t) => t,
        None => crate::proto::default_term(),
    };
    let mut args: Vec<String> = Vec::new();
    args.push(String::from_str("-l"));
    ShellCommand { program, args, term, cwd }
}

/// The daemon's whole configuration: its identity, its access policy, and
/// its shell policy.
pub struct P2TermdCfg {
    /// The daemon's secret key.
    pub secret_key: SecretKeyBytes,
    /// Which peers may connect.
    pub access: P2TermdAccess,
    /// Which shells may run.
    pub shell_cfg: ShellCfg,
}

/// Whether the settings carry usable key material: a given hex string must
/// decode to 32 bytes, a given key file must hold exactly 32; with neither,
/// a key is generated, which cannot fail.
pub open spec fn settings_key_ok(hex: Option<&str>, file: Option<&Vec<u8>>) -> bool {
    match hex {
        Some(h) => crate::keys::decodes_to_key(h.spec_bytes()),
        None => match file {
            Some(f) => f@.len() == 32,
            None => true,
        },
    }
}

/// Whether every configured peer entry names a valid public key (an absent
/// or empty list asks for no parsing).
pub open spec fn settings_peers_ok(peers: Option<Vec<String>>) -> bool {
    match peers {
        Some(ps) => forall|i: int|
            0 <= i < ps@.len() ==> decodes_to_public_key(
                vstd::utf8::encode_utf8(ps.deep_view()[i]),
            ),
        None => true,
    }
}

/// The allowed-shells list a settings value stands for: absent means empty.
pub open spec fn settings_shells(allowed_shells: Option<Vec<String>>) -> Seq<Seq<char>> {
    match allowed_shells {
        Some(s) => s.deep_view(),
        None => Seq::empty(),
    }
}

impl P2TermdCfg {
    /// The configuration used when no config file is given: a freshly
    /// generated key, any peer admitted, the host's shell policy.
    pub fn fresh(env_shell: Option<String>) -> (r: P2TermdCfg)
        ensures
            r.secret_key.wf(),
            r.access matches P2TermdAccess::Any,
            shell_cfg_from(r.shell_cfg, None, env_shell.deep_view(), Seq::empty()),
            r.shell_cfg.shell_allowed(r.shell_cfg.default_shell@),
    {
        let none_allowed: Vec<String> = Vec::new();
        proof {
            assert(none_allowed.deep_view() =~= Seq::<Seq<char>>::empty());
        }
        P2TermdCfg {
            secret_key: crate::keys::generate_secret_key(),
            access: P2TermdAccess::Any,
            shell_cfg: ShellCfg::from_overrides(None, env_shell, none_allowed),
        }
    }

    /// Assembles the configuration from the settings a config file carries:
    /// resolves the secret key (hex string first, then key file contents,
    /// else a fresh key), parses the peer allow-list, and settles the shell
    /// policy. It succeeds exactly when the key material and every peer
    /// entry are good; anything else is a configuration error.
    pub fn from_settings(
        secret_key_hex: Option<&str>,
        secret_key_file: Option<&Vec<u8>>,
        allowed_peers: Option<Vec<String>>,
        default_shell: Option<String>,
        env_shell: Option<String>,
        allowed_shells: Option<Vec<String>>,
    ) -> (r: Result<P2TermdCfg, ErrorKind>)
        ensures
            r is Ok <==> settings_key_ok(secret_key_hex, secret_key_file) && settings_peers_ok(
                allowed_peers,
            ),
            r matches Ok(cfg) ==> cfg.secret_key.wf(),
            secret_key_hex is Some && r is Ok ==> Some(r->Ok_0.secret_key@) == hex_bytes_decode(
                secret_key_hex->Some_0.spec_bytes(),
            ),
            secret_key_hex is None && secret_key_file is Some && r is Ok ==> r->Ok_0.secret_key@
                == secret_key_file->Some_0@,
            r matches Ok(cfg) ==> ((allowed_peers is None || allowed_peers->Some_0@.len() == 0)
                <==> cfg.access matches P2TermdAccess::Any),
            allowed_peers is Some && allowed_peers->Some_0@.len() > 0 && r is Ok
                ==> access_from_peers(r->Ok_0.access, allowed_peers->Some_0.deep_view()),
            r matches Ok(cfg) ==> shell_cfg_from(
                cfg.shell_cfg,
                default_shell.deep_view(),
                env_shell.deep_view(),
                settings_shells(allowed_shells),
            ) && cfg.shell_cfg.shell_allowed(cfg.shell_cfg.default_shell@),
            r is Err ==> r == Err::<P2TermdCfg, ErrorKind>(ErrorKind::Config),
    {
        let secret_key = match any_secret_key(secret_key_hex, secret_key_file) {
            Ok(k) => k,
            Err(e) => {
                return Err(e);
            },
        };
        let ghost peers_empty = allowed_peers is None || allowed_peers->Some_0@.len() == 0;
        let access = match create_access(allowed_peers) {
            Ok(a) => a,
            Err(e) => {
                return Err(e);
            },
        };
        proof {
            if peers_empty {
                assert(access matches P2TermdAccess::Any);
            } else {
                assert(!(access matches P2TermdAccess::Any));
            }
        }
        let ghost shells_dv = settings_shells(allowed_shells);
        let allowed_shells = match allowed_shells {
            Some(s) => s,
            None => Vec::new(),
        };
        proof {
            assert(allowed_shells.deep_view() =~= shells_dv);
        }
        let shell_cfg = ShellCfg::from_overrides(default_shell, env_shell, allowed_shells);
        Ok(P2TermdCfg { secret_key, access, shell_cfg })
    }
}

} // verus!
