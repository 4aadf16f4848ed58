//! Streams of frames and the modes a device offers them in.

use crate::error::Error;
use crate::format::{FormatModel, ImageFormat, PixelFormat};
use crate::image::CowImage;
use crate::traits::{pulled, run, Stream};
use vstd::prelude::*;

verus! {

/// A stream that gives, for each item of another stream, what a function
/// makes of it. Nothing is buffered: the function is applied as an item is
/// pulled.
pub struct MapStream<S, F> {
    stream: S,
    f: F,
}

impl<S, F> MapStream<S, F> {
    /// The stream underneath.
    pub closed spec fn source(&self) -> S {
        self.stream
    }

    /// The function applied to each item.
    pub closed spec fn function(&self) -> F {
        self.f
    }

    /// Adapts `stream` by `f`.
    pub fn new(stream: S, f: F) -> (mapped: Self)
        ensures
            mapped.source() == stream,
            mapped.function() == f,
    {
        MapStream { stream, f }
    }
}

impl<S, F, B> Stream for MapStream<S, F> where S: Stream, F: Fn(S::Item) -> B {
    type Item = B;

    open spec fn inv(&self) -> bool {
        &&& self.source().inv()
        &&& forall|item: S::Item| call_requires(self.function(), (item,))
    }

    open spec fn exhausted(&self) -> bool {
        self.source().exhausted()
    }

    open spec fn yields(&self, item: Option<B>, after: &Self) -> bool {
        &&& after.function() == self.function()
        &&& match item {
            None => self.source().yields(None, &after.source()),
            Some(b) => exists|a: S::Item| #[trigger]
                self.source().yields(Some(a), &after.source()) && call_ensures(
                    self.function(),
                    (a,),
                    b,
                ),
        }
    }

    fn next(&mut self) -> (item: Option<B>) {
        let pulled = self.stream.next();
        assert(self.function() == old(self).function());
        match pulled {
            Some(a) => {
                let b = (self.f)(a);
                assert(old(self).source().yields(Some(a), &self.source()) && call_ensures(
                    old(self).function(),
                    (a,),
                    b,
                ));
                Some(b)
            },
            None => None,
        }
    }
}

/// How an item of a mapped stream stands to the item of the stream
/// underneath: both are the end, or the function may turn the one into the
/// other.
pub open spec fn mapped<A, B, F: Fn(A) -> B>(f: F, from: Option<A>, to: Option<B>) -> bool {
    match (from, to) {
        (None, None) => true,
        (Some(a), Some(b)) => call_ensures(f, (a,), b),
        _ => false,
    }
}

/// The item of the stream underneath that one pull of a mapped stream
/// took.
pub open spec fn taken<S: Stream, F: Fn(S::Item) -> B, B>(
    before: MapStream<S, F>,
    item: Option<B>,
    after: MapStream<S, F>,
) -> Option<S::Item> {
    match item {
        None => None,
        Some(b) => Some(
            choose|a: S::Item| #[trigger]
                before.source().yields(Some(a), &after.source()) && call_ensures(
                    before.function(),
                    (a,),
                    b,
                ),
        ),
    }
}

/// What a mapped stream gives is, item by item and in the same order, what
/// the function makes of the items of the stream underneath: every run of
/// the mapped stream goes with a run of the same length underneath, the
/// two end together, and the function stays the same throughout.
pub proof fn lemma_map_follows_source<S: Stream, F: Fn(S::Item) -> B, B>(
    states: Seq<MapStream<S, F>>,
    items: Seq<Option<B>>,
) -> (taken_items: Seq<Option<S::Item>>)
    requires
        run(states, items),
    ensures
        taken_items.len() == items.len(),
        run(states.map_values(|m: MapStream<S, F>| m.source()), taken_items),
        forall|k: int|
            0 <= k < items.len() ==> mapped(
                states[0].function(),
                taken_items[k],
                #[trigger] items[k],
            ),
{
    let sources = states.map_values(|m: MapStream<S, F>| m.source());
    let taken_items = Seq::new(items.len(), |k: int| taken(states[k], items[k], states[k + 1]));
    assert forall|k: int| 0 <= k <= items.len() implies (#[trigger] states[k]).function()
        == states[0].function() by {
        lemma_map_keeps_function(states, items, k);
    }
    assert forall|k: int| 0 <= k < items.len() implies pulled(
        sources[k],
        #[trigger] taken_items[k],
        sources[k + 1],
    ) && mapped(states[0].function(), taken_items[k], items[k]) by {
        assert(pulled(states[k], items[k], states[k + 1]));
        assert(states[k].function() == states[0].function());
    }
    taken_items
}

proof fn lemma_map_keeps_function<S: Stream, F: Fn(S::Item) -> B, B>(
    states: Seq<MapStream<S, F>>,
    items: Seq<Option<B>>,
    k: int,
)
    requires
        run(states, items),
        0 <= k <= items.len(),
    ensures
        states[k].function() == states[0].function(),
    decreases k,
{
    if k > 0 {
        lemma_map_keeps_function(states, items, k - 1);
        assert(pulled(states[k - 1], items[k - 1], states[k]));
    }
}

/// The time from one frame to the next, in seconds, as a fraction.
#[derive(Clone, Copy, Debug, PartialEq, Eq, Structural)]
pub struct Interval {
    pub numerator: u32,
    pub denominator: u32,
}

/// One mode a device can capture in.
#[derive(Debug)]
pub struct Descriptor {
    /// Width in pixels.
    pub width: u32,
    /// Height in pixels.
    pub height: u32,
    /// Encoding of the pixels.
    pub pixfmt: PixelFormat,
    /// The frame intervals the mode supports.
    pub intervals: Vec<Interval>,
}

/// The mathematical value of a [`Descriptor`].
pub struct DescriptorModel {
    pub width: u32,
    pub height: u32,
    pub pixfmt: FormatModel,
    pub intervals: Seq<Interval>,
}

impl View for Descriptor {
    type V = DescriptorModel;

    open spec fn view(&self) -> DescriptorModel {
        DescriptorModel {
            width: self.width,
            height: self.height,
            pixfmt: self.pixfmt@,
            intervals: self.intervals@,
        }
    }
}

impl Clone for Descriptor {
    fn clone(&self) -> (r: Descriptor)
        ensures
            r@ == self@,
    {
        Descriptor {
            width: self.width,
            height: self.height,
            pixfmt: self.pixfmt.clone(),
            intervals: self.intervals.clone(),
        }
    }
}

/// The mathematical values of a list, in order.
pub open spec fn models<T: View>(list: Seq<T>) -> Seq<T::V> {
    list.map_values(|item: T| item@)
}

/// `bests` are the successive picks of a fold of `streams` from the left
/// through `f`: the first pick is the first stream, and each later pick is
/// what `f` may make of the pick before and the next stream.
pub open spec fn picks<F: Fn(Descriptor, Descriptor) -> Descriptor>(
    f: F,
    streams: Seq<Descriptor>,
    bests: Seq<Descriptor>,
) -> bool {
    &&& streams.len() > 0
    &&& bests.len() == streams.len()
    &&& bests[0] == streams[0]
    &&& forall|k: int|
        1 <= k < streams.len() ==> call_ensures(f, (bests[k - 1], streams[k]), #[trigger] bests[k])
}

/// Folding `streams` from the left through `f` may give `best`.
pub open spec fn folds_to<F: Fn(Descriptor, Descriptor) -> Descriptor>(
    f: F,
    streams: Seq<Descriptor>,
    best: Descriptor,
) -> bool {
    exists|bests: Seq<Descriptor>| #[trigger] picks(f, streams, bests) && bests.last() == best
}

/// Picks one stream out of `streams` by folding them from the left through
/// the preference `f`, which is handed the best so far and the next and
/// gives back the one it prefers. Of no streams none can be picked.
pub fn prefer<F>(streams: Vec<Descriptor>, f: F) -> (r: Result<Descriptor, Error>) where
    F: Fn(Descriptor, Descriptor) -> Descriptor,

    requires
        forall|a: Descriptor, b: Descriptor| call_requires(f, (a, b)),
    ensures
        (match r {
            Ok(best) => folds_to(f, streams@, best),
            Err(e) => streams@.len() == 0 && e == Error::NoStreams,
        }),
{
    let mut best: Option<Descriptor> = None;
    let ghost mut bests: Seq<Descriptor> = Seq::empty();
    for stream in it: streams
        invariant
            forall|a: Descriptor, b: Descriptor| call_requires(f, (a, b)),
            it.seq() == streams@,
            bests.len() == it.index(),
            match best {
                None => it.index() == 0,
                Some(so_far) => picks(f, streams@.take(it.index() as int), bests) && bests.last()
                    == so_far,
            },
    {
        best = match best {
            None => Some(stream),
            Some(so_far) => Some(f(so_far, stream)),
        };
        proof {
            bests = bests.push(best.unwrap());
        }
    }
    assert(streams@.take(streams@.len() as int) =~= streams@);
    match best {
        Some(best) => Ok(best),
        None => Err(Error::NoStreams),
    }
}

/// What [`prefer`] makes of the answer to a query of the modes: the error
/// where the query failed, else the pick out of the list.
pub open spec fn picked<F: Fn(Descriptor, Descriptor) -> Descriptor>(
    f: F,
    answer: Result<Vec<Descriptor>, Error>,
    r: Result<Descriptor, Error>,
) -> bool {
    match answer {
        Err(e) => r matches Err(x) && x == e,
        Ok(list) => match r {
            Ok(best) => folds_to(f, list@, best),
            Err(e) => list@.len() == 0 && e == Error::NoStreams,
        },
    }
}

/// Of no streams none is best.
pub proof fn lemma_nothing_to_prefer<F: Fn(Descriptor, Descriptor) -> Descriptor>(
    f: F,
    streams: Seq<Descriptor>,
    best: Descriptor,
)
    requires
        streams.len() == 0,
    ensures
        !folds_to(f, streams, best),
{
}

/// Of a single stream that stream is best, whatever the preference.
pub proof fn lemma_single_is_preferred<F: Fn(Descriptor, Descriptor) -> Descriptor>(
    f: F,
    streams: Seq<Descriptor>,
    best: Descriptor,
)
    requires
        streams.len() == 1,
        folds_to(f, streams, best),
    ensures
        best == streams[0],
{
}

/// What a pull on an image stream gives: a frame, or the backend's error.
/// An error is an item like any other and does not end the stream.
pub type Frame<'a> = Result<CowImage<'a>, Error>;

/// A running capture in one format. For another format another stream is
/// started.
pub struct ImageStream<S> {
    inner: S,
    format: ImageFormat,
}

impl<S> ImageStream<S> {
    /// The stream the frames come from.
    pub closed spec fn source(&self) -> S {
        self.inner
    }

    /// The format of the frames.
    pub closed spec fn spec_format(&self) -> &ImageFormat {
        &self.format
    }

    /// A stream of the frames of `inner`, which are in `format`. The source
    /// can be handed to another thread, and the stream with it.
    pub fn new(inner: S, format: ImageFormat) -> (stream: Self) where S: Send
        ensures
            stream.source() == inner,
            stream.format() == format,
    {
        ImageStream { inner, format }
    }

    /// The format of the frames the stream gives.
    #[verifier::when_used_as_spec(spec_format)]
    pub fn format(&self) -> (format: &ImageFormat)
        ensures
            format == self.spec_format(),
    {
        &self.format
    }
}

impl<'a, S> Stream for ImageStream<S> where S: Stream<Item = Frame<'a>> {
    type Item = Frame<'a>;

    open spec fn inv(&self) -> bool {
        self.source().inv()
    }

    open spec fn exhausted(&self) -> bool {
        self.source().exhausted()
    }

    open spec fn yields(&self, item: Option<Frame<'a>>, after: &Self) -> bool {
        &&& self.source().yields(item, &after.source())
        &&& after.format() == self.format()
    }

    fn next(&mut self) -> (item: Option<Frame<'a>>) {
        self.inner.next()
    }
}

} // verus!
