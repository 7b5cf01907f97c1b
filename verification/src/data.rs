use vstd::prelude::*;
use crate::error::TrainError;

verus! {

/// One labeled sample: a fixed `height x width` grid of intensities in
/// row-major order, and its class label.
#[derive(Clone, Debug)]
pub struct Item {
    pub height: usize,
    pub width: usize,
    pub pixels: Vec<u8>,
    pub label: u8,
}

impl Item {
    pub open spec fn wf(self) -> bool {
        &&& self.height >= 1
        &&& self.width >= 1
        &&& self.pixels@.len() == self.height * self.width
    }

    /// Builds an item, rejecting a grid whose pixel count does not fill
    /// its stated dimensions.
    pub fn new(height: usize, width: usize, pixels: Vec<u8>, label: u8) -> (r: Result<
        Item,
        TrainError,
    >)
        ensures
            match r {
                Ok(it) => {
                    &&& it == (Item { height, width, pixels, label })
                    &&& it.wf()
                },
                Err(e) => {
                    &&& e == TrainError::ShapeMismatch
                    &&& !(Item { height, width, pixels, label }).wf()
                },
            },
    {
        if height == 0 || width == 0 {
            return Err(TrainError::ShapeMismatch);
        }
        let len = pixels.len();
        match height.checked_mul(width) {
            Some(need) => {
                if len != need {
                    return Err(TrainError::ShapeMismatch);
                }
            },
            None => {
                return Err(TrainError::ShapeMismatch);
            },
        }
        Ok(Item { height, width, pixels, label })
    }
}

/// A batch: every item's grid stacked in order into one flat image buffer,
/// and the labels stacked in the same order.
#[derive(Clone, Debug)]
pub struct Batch {
    pub count: usize,
    pub height: usize,
    pub width: usize,
    pub images: Vec<u8>,
    pub targets: Vec<u8>,
}

impl Batch {
    pub open spec fn wf(self) -> bool {
        &&& self.count >= 1
        &&& self.height >= 1
        &&& self.width >= 1
        &&& self.images@.len() == self.count * self.height * self.width
        &&& self.targets@.len() == self.count
    }
}

/// The image buffer a batch must hold: each item's pixels, in item order.
pub open spec fn spec_stacked_pixels(items: Seq<Item>) -> Seq<u8>
    decreases items.len(),
{
    if items.len() == 0 {
        Seq::empty()
    } else {
        spec_stacked_pixels(items.drop_last()) + items.last().pixels@
    }
}

/// Whether every item is well formed and shares the dimensions of the first.
pub open spec fn spec_uniform(items: Seq<Item>) -> bool {
    forall|k: int|
        0 <= k < items.len() ==> {
            &&& (#[trigger] items[k]).wf()
            &&& items[k].height == items[0].height
            &&& items[k].width == items[0].width
        }
}

/// Stacking `n` grids of `h * w` pixels yields `n * h * w` pixels.
proof fn lemma_stacked_len(items: Seq<Item>)
    requires
        items.len() >= 1,
        spec_uniform(items),
    ensures
        spec_stacked_pixels(items).len() == items.len() * items[0].height * items[0].width,
    decreases items.len(),
{
    let h = items[0].height as int;
    let w = items[0].width as int;
    let n = items.len() as int;
    assert(items[items.len() - 1].wf());
    assert(items.last().pixels@.len() == h * w);
    if items.len() == 1 {
        assert(spec_stacked_pixels(items.drop_last()).len() == 0);
        assert(1 * h * w == h * w) by (nonlinear_arith);
    } else {
        assert(spec_uniform(items.drop_last())) by {
            assert(forall|k: int|
                0 <= k < items.len() - 1 ==> items.drop_last()[k] == items[k]);
        }
        lemma_stacked_len(items.drop_last());
        assert(spec_stacked_pixels(items).len() == (n - 1) * h * w + h * w);
        assert((n - 1) * h * w + h * w == n * h * w) by (nonlinear_arith);
    }
}

/// Stacks a list of items into one batch, order-preserving. An empty list
/// is an artifact-class error; mixed dimensions are a shape mismatch.
pub fn batch(items: &Vec<Item>) -> (r: Result<Batch, TrainError>)
    ensures
        match r {
            Ok(b) => {
                &&& items@.len() >= 1
                &&& spec_uniform(items@)
                &&& b.count == items@.len()
                &&& b.height == items@[0].height
                &&& b.width == items@[0].width
                &&& b.images@ == spec_stacked_pixels(items@)
                &&& b.targets@ == items@.map_values(|it: Item| it.label)
                &&& b.wf()
            },
            Err(e) => {
                &&& (e == TrainError::ArtifactCorrupt || e == TrainError::ShapeMismatch)
                &&& (e == TrainError::ArtifactCorrupt <==> items@.len() == 0)
                &&& (e == TrainError::ShapeMismatch <==> items@.len() >= 1 && !spec_uniform(
                    items@,
                ))
            },
        },
{
    if items.len() == 0 {
        return Err(TrainError::ArtifactCorrupt);
    }
    let height = items[0].height;
    let width = items[0].width;
    let mut images: Vec<u8> = Vec::new();
    let mut targets: Vec<u8> = Vec::new();
    let mut i: usize = 0;
    while i < items.len()
        invariant
            0 <= i <= items@.len(),
            items@.len() >= 1,
            height == items@[0].height,
            width == items@[0].width,
            forall|k: int|
                0 <= k < i ==> {
                    &&& (#[trigger] items@[k]).wf()
                    &&& items@[k].height == height
                    &&& items@[k].width == width
                },
            images@ == spec_stacked_pixels(items@.take(i as int)),
            targets@ == items@.take(i as int).map_values(|it: Item| it.label),
        decreases items@.len() - i,
    {
        let it = &items[i];
        if it.height == 0 || it.width == 0 || it.height != height || it.width != width {
            proof {
                assert(!((items@[i as int]).wf() && items@[i as int].height == items@[0].height
                    && items@[i as int].width == items@[0].width));
            }
            return Err(TrainError::ShapeMismatch);
        }
        let plen = it.pixels.len();
        match height.checked_mul(width) {
            Some(need) => {
                if plen != need {
                    proof {
                        assert(!(items@[i as int]).wf());
                    }
                    return Err(TrainError::ShapeMismatch);
                }
            },
            None => {
                proof {
                    assert(!(items@[i as int]).wf());
                }
                return Err(TrainError::ShapeMismatch);
            },
        }
        let ghost pre = images@;
        let mut j: usize = 0;
        while j < it.pixels.len()
            invariant
                0 <= j <= it.pixels@.len(),
                images@ == pre + it.pixels@.take(j as int),
            decreases it.pixels@.len() - j,
        {
            proof {
                assert(it.pixels@.take(j + 1) =~= it.pixels@.take(j as int).push(
                    it.pixels@[j as int],
                ));
            }
            images.push(it.pixels[j]);
            j = j + 1;
        }
        proof {
            assert(it.pixels@.take(it.pixels@.len() as int) =~= it.pixels@);
            assert(items@.take(i + 1).drop_last() =~= items@.take(i as int));
            assert(items@.take(i + 1).last() == items@[i as int]);
            assert(items@.take(i + 1).map_values(|x: Item| x.label) =~= items@.take(
                i as int,
            ).map_values(|x: Item| x.label).push(items@[i as int].label));
        }
        targets.push(it.label);
        i = i + 1;
    }
    proof {
        assert(items@.take(items@.len() as int) =~= items@);
        lemma_stacked_len(items@);
        assert(items@.map_values(|it: Item| it.label).len() == items@.len());
    }
    Ok(Batch { count: items.len(), height, width, images, targets })
}

} // verus!
