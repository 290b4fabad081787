//! The template shell: the HTML file cut once, at startup, around the single
//! occurrence of its injection marker.
use vstd::prelude::*;

verus! {

/// Whether `marker` occurs in `text` starting at position `i`.
pub open spec fn occurs_at(text: Seq<u8>, marker: Seq<u8>, i: int) -> bool {
    0 <= i && i + marker.len() <= text.len() && text.subrange(i, i + marker.len()) == marker
}

/// The marker occurs somewhere in the text.
pub open spec fn has_marker(text: Seq<u8>, marker: Seq<u8>) -> bool {
    exists|i: int| occurs_at(text, marker, i)
}

/// The marker occurs at two different positions (overlapping ones count).
pub open spec fn has_repeated_marker(text: Seq<u8>, marker: Seq<u8>) -> bool {
    exists|i: int, j: int| occurs_at(text, marker, i) && occurs_at(text, marker, j) && i != j
}

/// The marker occurs exactly once.
pub open spec fn has_single_marker(text: Seq<u8>, marker: Seq<u8>) -> bool {
    has_marker(text, marker) && !has_repeated_marker(text, marker)
}

/// The position of the marker, meaningful when it occurs exactly once.
pub open spec fn marker_position(text: Seq<u8>, marker: Seq<u8>) -> int {
    choose|i: int| occurs_at(text, marker, i)
}

/// Everything up to and including the marker.
pub open spec fn shell_prefix(text: Seq<u8>, marker: Seq<u8>) -> Seq<u8> {
    text.subrange(0, marker_position(text, marker) + marker.len())
}

/// Everything after the marker.
pub open spec fn shell_suffix(text: Seq<u8>, marker: Seq<u8>) -> Seq<u8> {
    text.subrange(marker_position(text, marker) + marker.len(), text.len() as int)
}

/// The opening body tag, where rendered markup is spliced into the page.
pub open spec fn body_marker() -> Seq<u8> {
    seq![60u8, 98u8, 111u8, 100u8, 121u8, 62u8]
}

/// Why a shell file cannot be used.
#[derive(Clone, Copy, Debug, PartialEq, Eq, Structural)]
pub enum ShellError {
    /// The marker does not occur in the file.
    MissingMarker,
    /// The marker occurs more than once, so the injection point is ambiguous.
    RepeatedMarker,
}

/// The shell cut in two: `prefix` ends with the marker, `suffix` follows it.
/// Never changed once built.
#[derive(Clone, Debug)]
pub struct TemplateShell {
    prefix: Vec<u8>,
    suffix: Vec<u8>,
}

impl TemplateShell {
    pub closed spec fn prefix_view(&self) -> Seq<u8> {
        self.prefix@
    }

    pub closed spec fn suffix_view(&self) -> Seq<u8> {
        self.suffix@
    }

    /// The bytes sent before the rendered markup.
    pub fn prefix(&self) -> (r: &[u8])
        ensures
            r@ == self.prefix_view(),
    {
        self.prefix.as_slice()
    }

    /// The bytes sent after the rendered markup.
    pub fn suffix(&self) -> (r: &[u8])
        ensures
            r@ == self.suffix_view(),
    {
        self.suffix.as_slice()
    }
}

/// The opening body tag as bytes.
pub fn body_marker_bytes() -> (r: Vec<u8>)
    ensures
        r@ == body_marker(),
{
    let r: Vec<u8> = vec![60u8, 98u8, 111u8, 100u8, 121u8, 62u8];
    assert(r@ =~= body_marker());
    r
}

/// Whether `marker` occurs in `text` at position `i`.
fn matches_at(text: &[u8], marker: &[u8], i: usize) -> (r: bool)
    requires
        i + marker@.len() <= text@.len() <= usize::MAX,
    ensures
        r == occurs_at(text@, marker@, i as int),
{
    let mut k: usize = 0;
    while k < marker.len()
        invariant
            k <= marker@.len(),
            i + marker@.len() <= text@.len() <= usize::MAX,
            forall|j: int| 0 <= j < k ==> text@[i + j] == marker@[j],
        decreases marker@.len() - k,
    {
        if text[i + k] != marker[k] {
            assert(text@.subrange(i as int, i + marker@.len())[k as int] != marker@[k as int]);
            return false;
        }
        k = k + 1;
    }
    assert(text@.subrange(i as int, i + marker@.len()) =~= marker@);
    true
}

/// Cuts `text` around the one occurrence of `marker`; the marker stays at the
/// end of the prefix. Fails when the marker is absent or occurs more than once.
pub fn split_shell(text: &[u8], marker: &[u8]) -> (r: Result<TemplateShell, ShellError>)
    ensures
        r is Ok <==> has_single_marker(text@, marker@),
        r == Err::<TemplateShell, ShellError>(ShellError::MissingMarker) <==> !has_marker(
            text@,
            marker@,
        ),
        r == Err::<TemplateShell, ShellError>(ShellError::RepeatedMarker) <==> has_repeated_marker(
            text@,
            marker@,
        ),
        r matches Ok(s) ==> s.prefix_view() == shell_prefix(text@, marker@) && s.suffix_view()
            == shell_suffix(text@, marker@),
{
    if marker.len() > text.len() {
        assert(!has_marker(text@, marker@));
        return Err(ShellError::MissingMarker);
    }
    let n: usize = text.len();
    let last: usize = n - marker.len();
    let mut found: Option<usize> = None;
    let mut i: usize = 0;
    loop
        invariant_except_break
            found matches Some(p) ==> p < i && occurs_at(text@, marker@, p as int),
            forall|j: int|
                0 <= j < i && occurs_at(text@, marker@, j) ==> found == Some(j as usize),
        invariant
            n == text@.len(),
            last + marker@.len() == n,
            i <= last,
        ensures
            found matches Some(p) ==> occurs_at(text@, marker@, p as int),
            forall|j: int| occurs_at(text@, marker@, j) ==> found == Some(j as usize),
        decreases last - i,
    {
        if matches_at(text, marker, i) {
            if let Some(p) = found {
                assert(occurs_at(text@, marker@, p as int) && occurs_at(text@, marker@, i as int));
                return Err(ShellError::RepeatedMarker);
            }
            found = Some(i);
        }
        if i == last {
            break;
        }
        i = i + 1;
    }
    match found {
        None => {
            assert(!has_marker(text@, marker@)) by {
                assert forall|j: int| !occurs_at(text@, marker@, j) by {}
            }
            Err(ShellError::MissingMarker)
        },
        Some(p) => {
            let ghost pos = p as int;
            assert(!has_repeated_marker(text@, marker@)) by {
                assert forall|a: int, b: int|
                    occurs_at(text@, marker@, a) && occurs_at(text@, marker@, b) implies a
                    == b by {}
            }
            assert(marker_position(text@, marker@) == pos) by {
                assert(occurs_at(text@, marker@, pos));
            }
            let cut: usize = p + marker.len();
            let prefix: Vec<u8> = slice_to_vec(text, 0, cut);
            let suffix: Vec<u8> = slice_to_vec(text, cut, text.len());
            Ok(TemplateShell { prefix, suffix })
        },
    }
}

/// Cutting a shell file at its single marker loses nothing: the prefix ends
/// with the marker, and what precedes the marker, the marker and the suffix,
/// put back together, give the file byte for byte.
pub proof fn lemma_shell_reconstructs(text: Seq<u8>, marker: Seq<u8>)
    requires
        has_single_marker(text, marker),
    ensures
        shell_prefix(text, marker).len() >= marker.len(),
        shell_prefix(text, marker).subrange(
            shell_prefix(text, marker).len() - marker.len(),
            shell_prefix(text, marker).len() as int,
        ) == marker,
        shell_prefix(text, marker).subrange(
            0,
            shell_prefix(text, marker).len() - marker.len(),
        ) + marker + shell_suffix(text, marker) == text,
        shell_prefix(text, marker) + shell_suffix(text, marker) == text,
{
    let pos = marker_position(text, marker);
    let p = shell_prefix(text, marker);
    let s = shell_suffix(text, marker);
    assert(occurs_at(text, marker, pos));
    assert(p.subrange(p.len() - marker.len(), p.len() as int) =~= marker);
    assert(p.subrange(0, p.len() - marker.len()) + marker + s =~= text);
    assert(p + s =~= text);
}

/// Copies `text[start..end]` into a new vector.
pub(crate) fn slice_to_vec(text: &[u8], start: usize, end: usize) -> (r: Vec<u8>)
    requires
        start <= end <= text@.len(),
    ensures
        r@ == text@.subrange(start as int, end as int),
{
    let mut r: Vec<u8> = Vec::new();
    let mut k: usize = start;
    while k < end
        invariant
            start <= k <= end <= text@.len(),
            r@ == text@.subrange(start as int, k as int),
        decreases end - k,
    {
        r.push(text[k]);
        k = k + 1;
        assert(r@ =~= text@.subrange(start as int, k as int));
    }
    r
}

} // verus!
