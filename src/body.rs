//! The body of a rendered response, produced one chunk at a time: the shell
//! prefix, then each chunk of the rendered markup in the order it was
//! produced, then the shell suffix.
use vstd::prelude::*;
use vstd::seq_lib::lemma_flatten_concat;

use crate::shell::{slice_to_vec, TemplateShell};

verus! {

/// The chunks of a complete body, in the order they are sent.
pub open spec fn framed_chunks(prefix: Seq<u8>, rendered: Seq<Seq<u8>>, suffix: Seq<u8>) -> Seq<
    Seq<u8>,
> {
    seq![prefix] + rendered + seq![suffix]
}

/// The bytes of a chunk that may be absent.
pub open spec fn chunk_view(c: Option<Vec<u8>>) -> Option<Seq<u8>> {
    match c {
        Some(v) => Some(v@),
        None => None,
    }
}

/// Where a body is in its sequence.
#[derive(Clone, Copy, Debug, PartialEq, Eq, Structural)]
pub enum Phase {
    /// Nothing sent yet; the shell prefix goes first.
    Prefix,
    /// The prefix is out; rendered chunks are passed on until the renderer ends.
    Render,
    /// The suffix is out; the body is complete.
    Done,
}

/// Assembles the body of one fallback response. It owns its copy of the
/// shell and keeps, as ghost state, every chunk handed out so far and every
/// rendered chunk taken in.
pub struct BodyAssembler {
    shell: TemplateShell,
    phase: Phase,
    sent: Ghost<Seq<Seq<u8>>>,
    rendered: Ghost<Seq<Seq<u8>>>,
}

impl BodyAssembler {
    pub closed spec fn prefix_view(&self) -> Seq<u8> {
        self.shell.prefix_view()
    }

    pub closed spec fn suffix_view(&self) -> Seq<u8> {
        self.shell.suffix_view()
    }

    pub closed spec fn phase_view(&self) -> Phase {
        self.phase
    }

    /// The chunks handed out so far, in order.
    pub closed spec fn sent(&self) -> Seq<Seq<u8>> {
        self.sent@
    }

    /// The rendered chunks taken in so far, in order.
    pub closed spec fn rendered(&self) -> Seq<Seq<u8>> {
        self.rendered@
    }

    /// What has been sent is always a frame of the body in the making.
    pub open spec fn wf(&self) -> bool {
        match self.phase_view() {
            Phase::Prefix => self.sent() == Seq::<Seq<u8>>::empty() && self.rendered() == Seq::<
                Seq<u8>,
            >::empty(),
            Phase::Render => self.sent() == seq![self.prefix_view()] + self.rendered(),
            Phase::Done => self.sent() == framed_chunks(
                self.prefix_view(),
                self.rendered(),
                self.suffix_view(),
            ),
        }
    }

    /// A fresh body for one request, framed by `shell`.
    pub fn new(shell: TemplateShell) -> (r: BodyAssembler)
        ensures
            r.wf(),
            r.phase_view() == Phase::Prefix,
            r.prefix_view() == shell.prefix_view(),
            r.suffix_view() == shell.suffix_view(),
    {
        BodyAssembler {
            shell,
            phase: Phase::Prefix,
            sent: Ghost(Seq::empty()),
            rendered: Ghost(Seq::empty()),
        }
    }

    /// Where the body is in its sequence.
    pub fn phase(&self) -> (r: Phase)
        ensures
            r == self.phase_view(),
    {
        self.phase
    }

    /// Whether the next step needs the renderer's next chunk (or its end).
    pub fn wants_render(&self) -> (r: bool)
        ensures
            r == (self.phase_view() == Phase::Render),
    {
        self.phase == Phase::Render
    }

    /// Whether the whole body has been handed out.
    pub fn is_done(&self) -> (r: bool)
        ensures
            r == (self.phase_view() == Phase::Done),
    {
        self.phase == Phase::Done
    }

    /// Hands out the next chunk of the body, or `None` once it is complete.
    /// `polled` is what the renderer yielded (`None` once it has ended); it is
    /// read only while rendered chunks are wanted.
    pub fn next_chunk(&mut self, polled: Option<Vec<u8>>) -> (r: Option<Vec<u8>>)
        requires
            old(self).wf(),
        ensures
            final(self).wf(),
            final(self).prefix_view() == old(self).prefix_view(),
            final(self).suffix_view() == old(self).suffix_view(),
            old(self).phase_view() == Phase::Prefix ==> chunk_view(r) == Some(
                old(self).prefix_view(),
            ) && final(self).phase_view() == Phase::Render && final(self).rendered()
                == old(self).rendered(),
            old(self).phase_view() == Phase::Render ==> match polled {
                Some(c) => chunk_view(r) == Some(c@) && final(self).phase_view() == Phase::Render
                    && final(self).rendered() == old(self).rendered().push(c@),
                None => chunk_view(r) == Some(old(self).suffix_view()) && final(self).phase_view()
                    == Phase::Done && final(self).rendered() == old(self).rendered(),
            },
            old(self).phase_view() == Phase::Done ==> r is None && final(self).phase_view()
                == Phase::Done && final(self).rendered() == old(self).rendered(),
            r matches Some(c) ==> final(self).sent() == old(self).sent().push(c@),
            r is None ==> final(self).sent() == old(self).sent(),
    {
        match self.phase {
            Phase::Prefix => {
                let chunk = copy_bytes(self.shell.prefix());
                self.phase = Phase::Render;
                proof {
                    self.sent@ = self.sent@.push(chunk@);
                    assert(self.sent@ =~= seq![self.prefix_view()] + self.rendered@);
                }
                Some(chunk)
            },
            Phase::Render => match polled {
                Some(c) => {
                    proof {
                        self.sent@ = self.sent@.push(c@);
                        self.rendered@ = self.rendered@.push(c@);
                        assert(self.sent@ =~= seq![self.prefix_view()] + self.rendered@);
                    }
                    Some(c)
                },
                None => {
                    let chunk = copy_bytes(self.shell.suffix());
                    self.phase = Phase::Done;
                    proof {
                        self.sent@ = self.sent@.push(chunk@);
                        assert(self.sent@ =~= framed_chunks(
                            self.prefix_view(),
                            self.rendered@,
                            self.suffix_view(),
                        ));
                    }
                    Some(chunk)
                },
            },
            Phase::Done => None,
        }
    }
}

/// An owned copy of `b`.
fn copy_bytes(b: &[u8]) -> (r: Vec<u8>)
    ensures
        r@ == b@,
{
    let r = slice_to_vec(b, 0, b.len());
    assert(r@ =~= b@);
    r
}

/// A complete body starts with the shell prefix and ends with the shell
/// suffix, and between them holds the rendered chunks joined in the order they
/// were produced.
pub proof fn lemma_framed_body(prefix: Seq<u8>, rendered: Seq<Seq<u8>>, suffix: Seq<u8>)
    ensures
        framed_chunks(prefix, rendered, suffix).flatten() == prefix + rendered.flatten() + suffix,
        framed_chunks(prefix, rendered, suffix).flatten().subrange(0, prefix.len() as int)
            == prefix,
        framed_chunks(prefix, rendered, suffix).flatten().subrange(
            (prefix.len() + rendered.flatten().len()) as int,
            framed_chunks(prefix, rendered, suffix).flatten().len() as int,
        ) == suffix,
{
    let body = prefix + rendered.flatten() + suffix;
    lemma_flatten_concat(seq![prefix], rendered);
    lemma_flatten_concat(seq![prefix] + rendered, seq![suffix]);
    seq![prefix].lemma_flatten_one_element();
    seq![suffix].lemma_flatten_one_element();
    assert(seq![prefix].flatten() == prefix);
    assert(seq![suffix].flatten() == suffix);
    assert(framed_chunks(prefix, rendered, suffix).flatten() =~= body);
    assert(body.subrange(0, prefix.len() as int) =~= prefix);
    assert(body.subrange((prefix.len() + rendered.flatten().len()) as int, body.len() as int) =~= suffix);
}

/// Once an assembler has handed out its whole body, the bytes sent, joined,
/// are the shell prefix, the rendered chunks in order, then the shell suffix.
pub proof fn lemma_complete_body(a: BodyAssembler)
    requires
        a.wf(),
        a.phase_view() == Phase::Done,
    ensures
        a.sent().flatten() == a.prefix_view() + a.rendered().flatten() + a.suffix_view(),
{
    lemma_framed_body(a.prefix_view(), a.rendered(), a.suffix_view());
}

} // verus!
