//! Fitting a line of text into a fixed number of screen cells, between two
//! escape sequences.

use unicode_segmentation::UnicodeSegmentation;
use vstd::prelude::*;
use vstd::string::StringExecFns;

verus! {

/// The extended grapheme clusters of a text, in order, as the Unicode rules
/// for text segmentation define them.
pub uninterp spec fn grapheme_clusters(text: Seq<char>) -> Seq<Seq<char>>;

/// The strings of `v` as sequences of characters.
pub open spec fn texts_of(v: Seq<String>) -> Seq<Seq<char>> {
    Seq::new(v.len(), |i: int| v[i]@)
}

/// `UnicodeSegmentation::graphemes` of the crate unicode_segmentation, asked
/// for extended clusters: the clusters of `text` in order. They are
/// consecutive pieces of `text` that together make up all of it.
#[verifier::external_body]
fn graphemes(text: &str) -> (clusters: Vec<String>)
    ensures
        texts_of(clusters@) == grapheme_clusters(text@),
        texts_of(clusters@).flatten() == text@,
{
    UnicodeSegmentation::graphemes(text, true).map(|g| g.to_string()).collect()
}

/// What fills screen cell `i`: cluster `i`, or a blank beyond the last
/// cluster.
pub open spec fn cell(clusters: Seq<Seq<char>>, i: int) -> Seq<char> {
    if 0 <= i < clusters.len() {
        clusters[i]
    } else {
        seq![' ']
    }
}

/// The first `count` cells, one after the other.
pub open spec fn cells(clusters: Seq<Seq<char>>, count: nat) -> Seq<char>
    decreases count,
{
    if count == 0 {
        Seq::empty()
    } else {
        cells(clusters, (count - 1) as nat) + cell(clusters, count - 1)
    }
}

/// `count` blanks.
pub open spec fn blanks(count: nat) -> Seq<char> {
    Seq::new(count, |i: int| ' ')
}

/// Where there are at least as many cells as clusters, the cells hold all the
/// clusters, followed by blanks.
pub proof fn lemma_cells_fit(clusters: Seq<Seq<char>>, count: nat)
    requires
        count >= clusters.len(),
    ensures
        cells(clusters, count) == clusters.flatten() + blanks((count - clusters.len()) as nat),
    decreases count,
{
    if count == clusters.len() {
        lemma_cells_exact(clusters, count);
        assert(clusters.take(count as int) =~= clusters);
        assert(clusters.flatten() + blanks(0) =~= clusters.flatten());
    } else {
        lemma_cells_fit(clusters, (count - 1) as nat);
        assert(blanks((count - 1 - clusters.len()) as nat) + seq![' '] =~= blanks(
            (count - clusters.len()) as nat,
        ));
        assert(cells(clusters, count) =~= clusters.flatten() + blanks((count - clusters.len()) as nat));
    }
}

/// Where there are at most as many cells as clusters, the cells hold the
/// first clusters and nothing else.
pub proof fn lemma_cells_exact(clusters: Seq<Seq<char>>, count: nat)
    requires
        count <= clusters.len(),
    ensures
        cells(clusters, count) == clusters.take(count as int).flatten(),
    decreases count,
{
    if count == 0 {
        assert(clusters.take(0) =~= Seq::<Seq<char>>::empty());
    } else {
        lemma_cells_exact(clusters, (count - 1) as nat);
        let front = clusters.take(count - 1);
        assert(clusters.take(count as int) =~= front.push(clusters[count - 1]));
        front.lemma_flatten_push(clusters[count - 1]);
    }
}

/// The text `left`, the first `count` cells of `clusters`, and `right`, one
/// after the other.
pub fn frame(left: &str, clusters: &Vec<String>, count: usize, right: &str) -> (out: String)
    ensures
        out@ == left@ + cells(texts_of(clusters@), count as nat) + right@,
{
    let mut out = String::new();
    out.append(left);
    assert(out@ =~= left@ + cells(texts_of(clusters@), 0));
    let mut i: usize = 0;
    while i < count
        invariant
            i <= count,
            out@ == left@ + cells(texts_of(clusters@), i as nat),
        decreases count - i,
    {
        if i < clusters.len() {
            out.append(clusters[i].as_str());
        } else {
            proof {
                reveal_strlit(" ");
            }
            out.append(" ");
            assert(" "@ =~= seq![' ']);
        }
        assert(out@ =~= left@ + cells(texts_of(clusters@), (i + 1) as nat));
        i += 1;
    }
    out.append(right);
    out
}

/// Cuts a line of text to a width and puts it between two escape sequences.
#[derive(Debug)]
pub struct AnsiTruncate {
    /// Put before the text.
    pub left: &'static str,
    /// Put after the text.
    pub right: &'static str,
    /// Cells granted to the next line beyond the width, for what that line
    /// holds and the screen does not show.
    pub extra_length: usize,
}

impl AnsiTruncate {
    pub fn new(left: &'static str, right: &'static str) -> (t: AnsiTruncate)
        ensures
            t.left == left,
            t.right == right,
            t.extra_length == 0,
    {
        AnsiTruncate { left, right, extra_length: 0 }
    }

    /// Fits `text` into `width` cells, and `extra_length` more: its first
    /// clusters, as many as there are cells, then blanks for the cells left
    /// over; all of it between `left` and `right`. The extra cells are used
    /// up by this.
    pub fn trim(&mut self, text: String, width: usize) -> (out: String)
        requires
            width + old(self).extra_length <= usize::MAX,
        ensures
            out@ == old(self).left@ + cells(
                grapheme_clusters(text@),
                (width + old(self).extra_length) as nat,
            ) + old(self).right@,
            width + old(self).extra_length >= grapheme_clusters(text@).len() ==> out@ == old(self).left@
                + text@ + blanks(
                (width + old(self).extra_length - grapheme_clusters(text@).len()) as nat,
            ) + old(self).right@,
            final(self).extra_length == 0,
            final(self).left == old(self).left,
            final(self).right == old(self).right,
    {
        let clusters = graphemes(text.as_str());
        proof {
            if width + self.extra_length >= clusters@.len() {
                lemma_cells_fit(texts_of(clusters@), (width + self.extra_length) as nat);
            }
        }
        let out = frame(self.left, &clusters, width + self.extra_length, self.right);
        self.extra_length = 0;
        out
    }
}

} // verus!
