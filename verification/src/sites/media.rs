//! Images and videos as schema.org writes them.

use std::cmp::Ordering;
use vstd::prelude::*;

verus! {

/// An image given by its identifier.
pub struct IdImage {
    pub id: String,
}

/// An image object with its address and, where known, its size.
pub struct ImageObject {
    pub url: String,
    pub width: Option<usize>,
    pub height: Option<usize>,
}

/// A video, of which the thumbnail is shown.
pub struct Video {
    pub name: String,
    pub description: String,
    pub thumbnail_url: String,
}

/// The shapes in which a recipe's image arrives.
pub enum Image {
    String(String),
    Array(Vec<String>),
    ImgArray(Vec<ImageObject>),
    Url(ImageObject),
    Id(IdImage),
}

/// Widths are ordered with an unknown width below every known one.
pub open spec fn width_le(a: Option<usize>, b: Option<usize>) -> bool {
    match (a, b) {
        (None, _) => true,
        (Some(_), None) => false,
        (Some(x), Some(y)) => x <= y,
    }
}

/// How two image objects compare by width.
pub open spec fn width_order(a: Option<usize>, b: Option<usize>) -> Ordering {
    if width_le(a, b) && width_le(b, a) {
        Ordering::Equal
    } else if width_le(a, b) {
        Ordering::Less
    } else {
        Ordering::Greater
    }
}

impl ImageObject {
    /// Compares two image objects by width, an unknown width being the least.
    pub fn cmp(&self, other: &Self) -> (o: Ordering)
        ensures
            o == width_order(self.width, other.width),
    {
        match (self.width, other.width) {
            (None, None) => Ordering::Equal,
            (Some(width), Some(o_width)) => {
                if width < o_width {
                    Ordering::Less
                } else if width == o_width {
                    Ordering::Equal
                } else {
                    Ordering::Greater
                }
            },
            (Some(_), None) => Ordering::Greater,
            (None, Some(_)) => Ordering::Less,
        }
    }

    /// Compares two image objects by width; always comparable.
    pub fn partial_cmp(&self, other: &Self) -> (o: Option<Ordering>)
        ensures
            o == Some(width_order(self.width, other.width)),
    {
        Some(self.cmp(other))
    }
}

/// Whether the first image is at most as wide as the second.
pub fn width_at_most(a: &ImageObject, b: &ImageObject) -> (r: bool)
    ensures
        r == width_le(a.width, b.width),
{
    match (a.width, b.width) {
        (None, _) => true,
        (Some(_), None) => false,
        (Some(x), Some(y)) => x <= y,
    }
}

/// The position of the widest image: of those of greatest width, the last.
pub open spec fn widest_index(v: Seq<ImageObject>) -> int
    decreases v.len(),
{
    if v.len() <= 1 {
        0
    } else {
        let k = widest_index(v.drop_last());
        if width_le(v[k].width, v.last().width) {
            v.len() - 1
        } else {
            k
        }
    }
}

/// No image is wider than the widest, and every later image is narrower.
pub proof fn lemma_widest_index(v: Seq<ImageObject>)
    requires
        v.len() > 0,
    ensures
        0 <= widest_index(v) < v.len(),
        forall|j: int| 0 <= j < v.len() ==> width_le(#[trigger] v[j].width, v[widest_index(v)].width),
        forall|j: int|
            widest_index(v) < j < v.len() ==> !width_le(v[widest_index(v)].width, #[trigger] v[j].width),
    decreases v.len(),
{
    if v.len() > 1 {
        let w = v.drop_last();
        lemma_widest_index(w);
        let k = widest_index(w);
        let n = v.len() - 1;
        assert forall|j: int| 0 <= j < w.len() implies v[j] == #[trigger] w[j] by {}
        if width_le(v[k].width, v[n].width) {
            assert forall|j: int| 0 <= j < v.len() implies width_le(
                #[trigger] v[j].width,
                v[n].width,
            ) by {
                if j < n {
                    assert(width_le(w[j].width, w[k].width));
                }
            }
        } else {
            assert(width_le(v[n].width, v[k].width));
            assert forall|j: int| 0 <= j < v.len() implies width_le(
                #[trigger] v[j].width,
                v[k].width,
            ) by {
                if j < n {
                    assert(width_le(w[j].width, w[k].width));
                }
            }
            assert forall|j: int| k < j < v.len() implies !width_le(
                v[k].width,
                #[trigger] v[j].width,
            ) by {
                if j < n {
                    assert(!width_le(w[k].width, w[j].width));
                }
            }
        }
    }
}

impl Image {
    /// There is an image to report: a list is not empty.
    pub open spec fn has_image(&self) -> bool {
        match self {
            Image::Array(v) => v@.len() > 0,
            Image::ImgArray(v) => v@.len() > 0,
            _ => true,
        }
    }

    /// The address reported: the string, the first of a list of strings, the
    /// widest of a list of image objects, the object's url, or the id.
    pub open spec fn url_spec(&self) -> Seq<char> {
        match self {
            Image::String(s) => s@,
            Image::Array(v) => v@[0]@,
            Image::ImgArray(v) => v@[widest_index(v@)].url@,
            Image::Url(o) => o.url@,
            Image::Id(i) => i.id@,
        }
    }

    /// The address of the image.
    pub fn get(&self) -> (r: String)
        requires
            self.has_image(),
        ensures
            r@ == self.url_spec(),
    {
        match self {
            Image::String(val) => val.clone(),
            Image::Array(val) => val[0].clone(),
            Image::Url(val) => val.url.clone(),
            Image::Id(val) => val.id.clone(),
            Image::ImgArray(val) => {
                let mut best: usize = 0;
                let mut i: usize = 1;
                while i < val.len()
                    invariant
                        1 <= i <= val.len(),
                        best < i,
                        best == widest_index(val@.take(i as int)),
                    decreases val.len() - i,
                {
                    assert(val@.take(i + 1).drop_last() =~= val@.take(i as int));
                    proof {
                        lemma_widest_index(val@.take(i as int));
                    }
                    assert(val@.take(i + 1)[best as int] == val@[best as int]);
                    if width_at_most(&val[best], &val[i]) {
                        best = i;
                    }
                    i = i + 1;
                }
                assert(val@.take(val.len() as int) =~= val@);
                val[best].url.clone()
            },
        }
    }
}

} // verus!
