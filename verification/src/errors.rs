//! Error kinds of the session fabric, and the flattened rendering of an
//! error-cause chain as it is logged and shown to the user.

use vstd::prelude::*;
use vstd::string::StringExecFns;

verus! {

/// Every way a session, a configuration or the daemon lifecycle can fail.
/// One connection's error never outlives that connection: it is rendered
/// (see [`ErrFmt`]) and the session ends, the daemon goes on.
#[derive(Clone, Copy, Debug, PartialEq, Eq, Structural)]
pub enum ErrorKind {
    /// Invalid configuration: bad TOML, bad hex key, unreadable key file.
    Config,
    /// Transport failure: bind, dial, or bi-stream open/accept.
    Transport,
    /// The client's options frame declared a length over the cap.
    HandshakeOversize,
    /// The stream ended before the handshake exchange completed.
    HandshakeTruncated,
    /// The options payload did not decode.
    HandshakeBadOptions,
    /// The server's welcome token never arrived or was wrong.
    HandshakeNoWelcome,
    /// The peer is not on the allow-list.
    AccessDenied,
    /// The client requested a shell that the policy does not allow.
    ShellPolicy,
    /// Opening the pty, spawning the child, or cloning its fds failed.
    PtyStart,
    /// A read or write on the pty failed after start.
    PtyIo,
    /// A read or write on the session stream failed after handshake.
    StreamIo,
    /// The router failed to stop within the drain deadline. The daemon does
    /// not return this kind itself — the deadline forces the exit, which the
    /// binary logs — but it is the name for that condition wherever an
    /// embedding reports it.
    Shutdown,
}

/// The separator placed between an error and its cause in a rendered chain.
pub open spec fn chain_sep() -> Seq<char> {
    seq![' ', '-', '>', ' ']
}

/// The rendering of a cause chain: the messages in order, joined by
/// [`chain_sep`]. An empty chain renders as the empty string.
pub open spec fn joined_chain(chain: Seq<Seq<char>>) -> Seq<char>
    decreases chain.len(),
{
    if chain.len() == 0 {
        Seq::empty()
    } else if chain.len() == 1 {
        chain[0]
    } else {
        chain[0] + chain_sep() + joined_chain(chain.drop_first())
    }
}

proof fn lemma_joined_chain_push(chain: Seq<Seq<char>>, last: Seq<char>)
    ensures
        joined_chain(chain.push(last)) == if chain.len() == 0 {
            last
        } else {
            (joined_chain(chain) + chain_sep() + last)
        },
    decreases chain.len(),
{
    if chain.len() == 0 {
        assert(chain.push(last)[0] == last);
        assert(chain.push(last).len() == 1);
    } else if chain.len() == 1 {
        let p = chain.push(last);
        assert(p.len() == 2);
        assert(p[0] == chain[0]);
        assert(p.drop_first() =~= seq![last]);
        assert(joined_chain(p.drop_first()) == last);
    } else {
        let p = chain.push(last);
        assert(p.drop_first() =~= chain.drop_first().push(last));
        lemma_joined_chain_push(chain.drop_first(), last);
        assert(joined_chain(p) == chain[0] + chain_sep() + joined_chain(chain.drop_first().push(last)));
        assert(chain[0] + chain_sep() + (joined_chain(chain.drop_first()) + chain_sep() + last) =~= (chain[0]
            + chain_sep() + joined_chain(chain.drop_first())) + chain_sep() + last);
    }
}

/// A cause chain taken from an error, outermost message first, ready to be
/// rendered as one line.
pub struct ErrFmt {
    pub chain: Vec<String>,
}

/// Wraps an error's cause chain (outermost message first) for rendering.
pub fn unpack(chain: Vec<String>) -> (r: ErrFmt)
    ensures
        r.chain == chain,
{
    ErrFmt { chain }
}

impl ErrFmt {
    /// The one-line rendering: every message of the chain in order, joined
    /// by `" -> "`.
    pub fn render(&self) -> (r: String)
        ensures
            r@ == joined_chain(self.chain.deep_view()),
    {
        let ghost dv = self.chain.deep_view();
        let mut out = String::new();
        let mut i: usize = 0;
        proof {
            assert(dv.take(0) =~= Seq::<Seq<char>>::empty());
        }
        while i < self.chain.len()
            invariant
                i <= self.chain.len(),
                dv == self.chain.deep_view(),
                dv.len() == self.chain.len(),
                out@ == joined_chain(dv.take(i as int)),
            decreases self.chain.len() - i,
        {
            if i > 0 {
                out.append(" -> ");
                proof {
                    reveal_strlit(" -> ");
                    assert(" -> "@ =~= chain_sep());
                }
            }
            out.append(self.chain[i].as_str());
            proof {
                assert(dv[i as int] == self.chain@[i as int]@);
                assert(dv.take(i + 1) =~= dv.take(i as int).push(dv[i as int]));
                lemma_joined_chain_push(dv.take(i as int), dv[i as int]);
            }
            i = i + 1;
        }
        proof {
            assert(dv.take(dv.len() as int) =~= dv);
        }
        out
    }
}

} // verus!
