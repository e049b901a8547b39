use vstd::prelude::*;

verus! {

/// Where a deferred reference came from.
#[derive(Clone, Copy, Debug, PartialEq, Eq, Structural)]
pub enum DeferralKind {
    StyleLink,
    StyleInline,
    StyleAttr,
    Source,
    ImageLink,
    UnquotedUrl,
    QuotedUrl,
}

/// One external reference taken out of a document, to be resolved later.
#[derive(Debug)]
pub struct Deferral {
    pub kind: DeferralKind,
    /// Position of the entry in the document's registry.
    pub i: usize,
    /// The unresolved payload, as it stood in the document.
    pub data: String,
}

/// The name under which a kind appears in a placeholder.
pub open spec fn kind_name(k: DeferralKind) -> Seq<char> {
    match k {
        DeferralKind::StyleLink => "StyleLink"@,
        DeferralKind::StyleInline => "StyleInline"@,
        DeferralKind::StyleAttr => "StyleAttr"@,
        DeferralKind::Source => "Source"@,
        DeferralKind::ImageLink => "ImageLink"@,
        DeferralKind::UnquotedUrl => "UnquotedUrl"@,
        DeferralKind::QuotedUrl => "QuotedUrl"@,
    }
}

impl DeferralKind {
    pub fn as_str(&self) -> (r: &'static str)
        ensures
            r@ == kind_name(*self),
    {
        match self {
            DeferralKind::ImageLink => "ImageLink",
            DeferralKind::QuotedUrl => "QuotedUrl",
            DeferralKind::Source => "Source",
            DeferralKind::StyleAttr => "StyleAttr",
            DeferralKind::StyleInline => "StyleInline",
            DeferralKind::StyleLink => "StyleLink",
            DeferralKind::UnquotedUrl => "UnquotedUrl",
        }
    }
}

/// A registry whose entries are numbered `start`, `start + 1`, ... in order.
pub open spec fn numbered_from(d: Seq<Deferral>, start: int) -> bool {
    forall|j: int| 0 <= j < d.len() ==> #[trigger] d[j].i == start + j
}

/// The kinds and payloads of a registry, in order.
pub open spec fn entries(d: Seq<Deferral>) -> Seq<(DeferralKind, Seq<char>)> {
    d.map_values(|x: Deferral| (x.kind, x.data@))
}

/// Some entry of the registry has index `n`.
pub open spec fn has_index(d: Seq<Deferral>, n: int) -> bool {
    exists|j: int| 0 <= j < d.len() && d[j].i == n
}

/// In a registry numbered from zero, indices rise strictly with position
/// and every index below its length names exactly one entry.
pub proof fn lemma_indices_gapless(d: Seq<Deferral>)
    requires
        numbered_from(d, 0),
    ensures
        forall|j: int, k: int| 0 <= j < k < d.len() ==> d[j].i < d[k].i,
        forall|n: int| 0 <= n < d.len() <==> #[trigger] has_index(d, n),
        forall|j: int, k: int|
            0 <= j < d.len() && 0 <= k < d.len() && d[j].i == d[k].i ==> j == k,
{
    assert forall|n: int| 0 <= n < d.len() <==> #[trigger] has_index(d, n) by {
        if 0 <= n < d.len() {
            assert(d[n].i == n);
        }
    }
}

} // verus!
