use crate::scalar::{Interval, Scalar, INFINITY_BITS, ZERO_BITS};
use crate::vector::{black, Color3};
use vstd::prelude::*;

verus! {

/// How many bounces a path may take before it is cut off.
pub const MAX_BOUNCE_DEPTH: usize = 20;

/// The pattern of the nearest distance at which a ray can strike: a
/// hundredth.
pub const NEAREST_BITS: u64 = 0x3f84_7ae1_47ae_147b;

/// The distances at which a ray of a path can strike: from a hundredth on,
/// without end. The gap keeps a ray from striking the surface it has just
/// left.
pub fn reach() -> (range: Interval)
    ensures
        range == (Interval {
            start: Scalar { bits: NEAREST_BITS },
            end: Scalar { bits: INFINITY_BITS },
        }),
{
    Interval { start: Scalar { bits: NEAREST_BITS }, end: Scalar { bits: INFINITY_BITS } }
}

/// What became of a ray that was cast into the scene.
#[derive(Clone, Copy, Debug, PartialEq, Eq, Structural)]
pub enum Event {
    /// It struck nothing.
    Miss,
    /// It struck a surface that swallowed it.
    Absorbed,
    /// It struck a surface that sent it on.
    Scattered,
}

/// Where the light at the end of a path comes from.
#[derive(Clone, Copy, Debug, PartialEq, Eq, Structural)]
pub enum Source {
    /// Nowhere: the path carries no light.
    Black,
    /// The sky, in the direction of the last ray.
    Sky,
}

impl Source {
    /// The light at the end of a path, before the surfaces on the way dim
    /// it: black, or the colour of the sky as the caller computed it for
    /// the last ray.
    pub open spec fn lit(self, sky: Color3) -> Color3 {
        match self {
            Source::Black => black(),
            Source::Sky => sky,
        }
    }

    /// The light at the end of a path.
    pub fn light(self, sky: Color3) -> (color: Color3)
        ensures
            color == self.lit(sky),
    {
        match self {
            Source::Black => {
                let zero = Scalar { bits: ZERO_BITS };
                Color3 { x: zero, y: zero, z: zero }
            },
            Source::Sky => sky,
        }
    }
}

/// A path under way, or at its end.
#[derive(Clone, Copy, Debug, PartialEq, Eq, Structural)]
pub enum Path {
    /// The next ray is to be cast; `depth` bounces are left, this one included.
    Tracing { depth: usize },
    /// The path has ended.
    Done(Source),
}

impl Path {
    /// A path under way has at least one bounce left.
    pub open spec fn wf(self) -> bool {
        match self {
            Path::Tracing { depth } => depth > 0,
            Path::Done(_) => true,
        }
    }

    /// The path that may take `depth` bounces, before its first ray.
    pub open spec fn begin(depth: usize) -> Path {
        if depth == 0 {
            Path::Done(Source::Black)
        } else {
            Path::Tracing { depth }
        }
    }

    /// The path after its current ray met with `event`.
    pub open spec fn after(self, event: Event) -> Path {
        match self {
            Path::Done(source) => Path::Done(source),
            Path::Tracing { depth } => match event {
                Event::Miss => Path::Done(Source::Sky),
                Event::Absorbed => Path::Done(Source::Black),
                Event::Scattered => Path::begin((depth - 1) as usize),
            },
        }
    }

    /// The path after its rays met with `events`, one after the other.
    pub open spec fn run(self, events: Seq<Event>) -> Path
        decreases events.len(),
    {
        if events.len() == 0 {
            self
        } else {
            self.after(events[0]).run(events.skip(1))
        }
    }

    /// Starts a path. With no bounce allowed it is over at once, in black,
    /// before any ray is cast.
    pub fn start(depth: usize) -> (path: Path)
        ensures
            path == Path::begin(depth),
            path.wf(),
    {
        if depth == 0 {
            Path::Done(Source::Black)
        } else {
            Path::Tracing { depth }
        }
    }

    /// Takes in what became of the current ray. A miss ends the path in the
    /// sky, an absorption in black; a scattering uses up one bounce and ends
    /// the path in black where none is left. A path that is over stays so.
    pub fn observe(self, event: Event) -> (path: Path)
        requires
            self.wf(),
        ensures
            path == self.after(event),
            path.wf(),
    {
        match self {
            Path::Done(source) => Path::Done(source),
            Path::Tracing { depth } => match event {
                Event::Miss => Path::Done(Source::Sky),
                Event::Absorbed => Path::Done(Source::Black),
                Event::Scattered => Path::start(depth - 1),
            },
        }
    }

    /// Whether a ray is still to be cast.
    pub fn is_tracing(&self) -> (tracing: bool)
        ensures
            tracing == (*self is Tracing),
    {
        match self {
            Path::Tracing { .. } => true,
            Path::Done(_) => false,
        }
    }
}

/// The event that a surface's answer amounts to: light that leaves the
/// surface goes on, light that does not is lost.
pub fn event_of<B>(bounce: &Option<B>) -> (event: Event)
    ensures
        event == (if *bounce is Some {
            Event::Scattered
        } else {
            Event::Absorbed
        }),
{
    match bounce {
        Some(_) => Event::Scattered,
        None => Event::Absorbed,
    }
}

/// What became of a ray that struck `hit`, as `scatter` tells it: a
/// scattering where the surface sends the light on, an absorption where it
/// does not.
pub open spec fn answered<H, S, FS: Fn(usize, H) -> Option<S>>(
    scatter: FS,
    i: usize,
    hit: H,
    event: Event,
) -> bool {
    exists|scattered: Option<S>| #[trigger]
        call_ensures(scatter, (i, hit), scattered) && event == (if scattered is Some {
            Event::Scattered
        } else {
            Event::Absorbed
        })
}

/// What became of ray number `i`, as `strike` and `scatter` tell it: a miss
/// where `strike` finds no surface; else what `scatter` says of the surface
/// that was struck.
pub open spec fn told<H, S, FH: Fn(usize) -> Option<H>, FS: Fn(usize, H) -> Option<S>>(
    strike: FH,
    scatter: FS,
    i: usize,
    event: Event,
) -> bool {
    exists|hit: Option<H>| #[trigger]
        call_ensures(strike, (i,), hit) && match hit {
            None => event == Event::Miss,
            Some(h) => answered(scatter, i, h, event),
        }
}

/// `events` tell what became of the rays of a path, the first of ray 0, the
/// next of ray 1, and so on.
pub open spec fn story<H, S, FH: Fn(usize) -> Option<H>, FS: Fn(usize, H) -> Option<S>>(
    strike: FH,
    scatter: FS,
    events: Seq<Event>,
) -> bool {
    forall|i: int|
        0 <= i < events.len() ==> told(strike, scatter, i as usize, #[trigger] events[i])
}

/// `events` is the story of one path of at most `depth` bounces that ends
/// with light from `source`: the path is still under way before each of the
/// events, and over after the last.
pub open spec fn path_ends(depth: usize, events: Seq<Event>, source: Source) -> bool {
    &&& events.len() <= depth
    &&& Path::begin(depth).run(events) == Path::Done(source)
    &&& forall|k: int|
        0 <= k < events.len() ==> (#[trigger] Path::begin(depth).run(events.take(k))) is Tracing
}

/// Follows one path to its end and says where its light comes from.
///
/// With `depth` 0 no ray is cast and the path is black. Otherwise
/// `strike(i)` casts the path's ray number `i` into the scene and hands back
/// the nearest hit, if there is one. Without a hit the path ends in the sky.
/// With one, `scatter(i, hit)` asks the surface that was struck: where it
/// swallows the light the path ends in black; where it sends the light on,
/// one bounce is used up, and the path goes on with ray `i + 1` if a bounce
/// is left and ends in black if none is. Nothing is asked once the path is
/// over.
pub fn compute_ray<H, S, FH: Fn(usize) -> Option<H>, FS: Fn(usize, H) -> Option<S>>(
    depth: usize,
    strike: FH,
    scatter: FS,
) -> (source: Source)
    requires
        forall|i: usize| i < depth ==> call_requires(strike, (i,)),
        forall|i: usize, hit: H| i < depth ==> call_requires(scatter, (i, hit)),
    ensures
        exists|events: Seq<Event>| #[trigger]
            story(strike, scatter, events) && path_ends(depth, events, source),
        depth == 0 ==> source == Source::Black,
{
    let mut path = Path::start(depth);
    let mut cast_so_far: usize = 0;
    let ghost mut events: Seq<Event> = Seq::empty();
    loop
        invariant
            forall|i: usize| i < depth ==> call_requires(strike, (i,)),
            forall|i: usize, hit: H| i < depth ==> call_requires(scatter, (i, hit)),
            story(strike, scatter, events),
            events.len() == cast_so_far,
            path.wf(),
            path == Path::begin(depth).run(events),
            match path {
                Path::Tracing { depth: left } => left + cast_so_far == depth,
                Path::Done(_) => cast_so_far <= depth,
            },
            forall|k: int|
                0 <= k < events.len() ==> (#[trigger] Path::begin(depth).run(events.take(k)))
                    is Tracing,
            depth == 0 ==> path == Path::Done(Source::Black),
        decreases depth - cast_so_far,
    {
        if let Path::Done(source) = path {
            return source;
        }
        let hit = strike(cast_so_far);
        let event = match hit {
            None => {
                assert(told(strike, scatter, cast_so_far, Event::Miss)) by {
                    assert(call_ensures(strike, (cast_so_far,), hit));
                }
                Event::Miss
            },
            Some(h) => {
                let scattered = scatter(cast_so_far, h);
                let event = event_of(&scattered);
                assert(told(strike, scatter, cast_so_far, event)) by {
                    assert(call_ensures(scatter, (cast_so_far, h), scattered));
                    assert(answered(scatter, cast_so_far, h, event));
                    assert(call_ensures(strike, (cast_so_far,), hit));
                }
                event
            },
        };
        proof {
            lemma_run_push(Path::begin(depth), events, event);
            let longer = events.push(event);
            assert(longer.take(events.len() as int) =~= events);
            assert forall|k: int| 0 <= k < longer.len() implies (#[trigger] Path::begin(
                depth,
            ).run(longer.take(k))) is Tracing by {
                if k < events.len() {
                    assert(longer.take(k) =~= events.take(k));
                }
            }
            events = longer;
        }
        path = path.observe(event);
        cast_so_far += 1;
    }
}

/// Taking in one more event after a run is the run over one more event.
pub proof fn lemma_run_push(path: Path, events: Seq<Event>, event: Event)
    ensures
        path.run(events.push(event)) == path.run(events).after(event),
    decreases events.len(),
{
    let longer = events.push(event);
    if events.len() == 0 {
        assert(longer.skip(1) =~= Seq::<Event>::empty());
        assert(path.after(event).run(longer.skip(1)) == path.after(event));
    } else {
        assert(longer.skip(1) =~= events.skip(1).push(event));
        lemma_run_push(path.after(events[0]), events.skip(1), event);
    }
}

/// With no bounce allowed the path is black, whatever the scene holds.
pub proof fn lemma_depth_zero_is_black(events: Seq<Event>)
    ensures
        Path::begin(0).run(events) == Path::Done(Source::Black),
    decreases events.len(),
{
    lemma_done_stays(Source::Black, events);
}

/// A path that is over is not changed by anything that follows.
pub proof fn lemma_done_stays(source: Source, events: Seq<Event>)
    ensures
        Path::Done(source).run(events) == Path::Done(source),
    decreases events.len(),
{
    if events.len() > 0 {
        lemma_done_stays(source, events.skip(1));
    }
}

/// A path is over once as many rays were cast as bounces were allowed.
pub proof fn lemma_ends_within_depth(depth: usize, events: Seq<Event>)
    requires
        events.len() >= depth,
    ensures
        Path::begin(depth).run(events) is Done,
    decreases events.len(),
{
    if depth == 0 {
        lemma_depth_zero_is_black(events);
    } else {
        let next = Path::begin(depth).after(events[0]);
        match next {
            Path::Done(source) => {
                lemma_done_stays(source, events.skip(1));
            },
            Path::Tracing { depth: left } => {
                assert(left == depth - 1);
                lemma_ends_within_depth(left, events.skip(1));
            },
        }
    }
}

/// A path that only ever scatters ends in black: the cut-off adds no light.
pub proof fn lemma_exhausted_is_black(depth: usize, events: Seq<Event>)
    requires
        events.len() >= depth,
        forall|i: int| 0 <= i < events.len() ==> events[i] == Event::Scattered,
    ensures
        Path::begin(depth).run(events) == Path::Done(Source::Black),
    decreases events.len(),
{
    if depth == 0 {
        lemma_depth_zero_is_black(events);
    } else {
        assert(events[0] == Event::Scattered);
        assert forall|i: int| 0 <= i < events.skip(1).len() implies events.skip(1)[i]
            == Event::Scattered by {
            assert(events.skip(1)[i] == events[i + 1]);
        }
        lemma_exhausted_is_black((depth - 1) as usize, events.skip(1));
    }
}

} // verus!
