//! The InputCapture portal's side: points and sizes, the desktop's bounds, the
//! barriers around the desktop, and the state of the capture session.

use crate::config::{ClientConfig, ConfigView, Position};
use crate::coord::Coord;
use crate::ei::{EiContext, EiView, InputEvent};
use crate::server::Event;
use std::collections::HashMap;
use vstd::prelude::*;

verus! {

broadcast use vstd::std_specs::hash::group_hash_axioms;

/// A point on the desktop.
#[derive(Debug, Clone, Copy)]
pub struct Point {
    pub x: Coord,
    pub y: Coord,
}

impl Point {
    /// Create a new point.
    pub fn new(x: Coord, y: Coord) -> (point: Point)
        ensures
            point == (Point { x, y }),
    {
        Point { x, y }
    }

    /// Whether the point's coordinates are these integers.
    pub open spec fn at(self, x: int, y: int) -> bool {
        self.x.integer(x) && self.y.integer(y)
    }

    /// The point whose coordinates are these integers.
    pub fn from_i32(x: i32, y: i32) -> (point: Point)
        ensures
            point.at(x as int, y as int),
    {
        Point { x: Coord::from_i32(x), y: Coord::from_i32(y) }
    }
}

impl PartialEq for Point {
    fn eq(&self, other: &Point) -> (same: bool) {
        self.x == other.x && self.y == other.y
    }
}

impl vstd::std_specs::cmp::PartialEqSpecImpl for Point {
    open spec fn obeys_eq_spec() -> bool {
        true
    }

    open spec fn eq_spec(&self, other: &Point) -> bool {
        &&& self.x.at_most(other.x)
        &&& other.x.at_most(self.x)
        &&& self.y.at_most(other.y)
        &&& other.y.at_most(self.y)
    }
}

/// The size of a client's screen, in pixels.
#[derive(Debug, Clone, Copy, PartialEq, Eq, Structural)]
pub struct Size {
    pub width: u16,
    pub height: u16,
}

impl Size {
    /// Create a new size.
    pub fn new(width: u16, height: u16) -> (size: Size)
        ensures
            size == (Size { width, height }),
    {
        Size { width, height }
    }
}

/// Desktop bounds from portal zones. The lower bounds belong to the desktop, the
/// upper bounds do not.
#[derive(Debug, Clone, Copy, PartialEq, Eq, Structural)]
pub struct DesktopBounds {
    pub min_x: i32,
    pub min_y: i32,
    pub max_x: i32,
    pub max_y: i32,
}

impl DesktopBounds {
    /// The bounds assumed until the zones are known.
    pub fn assumed() -> (bounds: DesktopBounds)
        ensures
            bounds == (DesktopBounds { min_x: 0, min_y: 0, max_x: 1920, max_y: 1080 }),
    {
        DesktopBounds { min_x: 0, min_y: 0, max_x: 1920, max_y: 1080 }
    }

    /// Whether the desktop's width and height are integers of 32 bits.
    pub open spec fn measurable(self) -> bool {
        &&& i32::MIN <= self.max_x - self.min_x <= i32::MAX
        &&& i32::MIN <= self.max_y - self.min_y <= i32::MAX
    }

    /// Whether the desktop's width and height are integers of 32 bits.
    pub fn is_measurable(&self) -> (measurable: bool)
        ensures
            measurable == self.measurable(),
    {
        self.max_x.checked_sub(self.min_x).is_some() && self.max_y.checked_sub(
            self.min_y,
        ).is_some()
    }

    /// The width of the desktop.
    pub fn width(&self) -> (width: i32)
        requires
            self.measurable(),
        ensures
            width == self.max_x - self.min_x,
    {
        self.max_x - self.min_x
    }

    /// The height of the desktop.
    pub fn height(&self) -> (height: i32)
        requires
            self.measurable(),
        ensures
            height == self.max_y - self.min_y,
    {
        self.max_y - self.min_y
    }

    /// Whether the point is on the desktop.
    pub open spec fn holds(self, point: Point) -> bool {
        &&& Coord::of_int(self.min_x as int).at_most(point.x)
        &&& point.x.below(Coord::of_int(self.max_x as int))
        &&& Coord::of_int(self.min_y as int).at_most(point.y)
        &&& point.y.below(Coord::of_int(self.max_y as int))
    }

    /// Whether the point is on the desktop.
    pub fn contains(&self, point: Point) -> (inside: bool)
        ensures
            inside == self.holds(point),
    {
        Coord::from_i32(self.min_x).is_at_most(point.x) && point.x.is_below(
            Coord::from_i32(self.max_x),
        ) && Coord::from_i32(self.min_y).is_at_most(point.y) && point.y.is_below(
            Coord::from_i32(self.max_y),
        )
    }
}

/// A zone of the desktop, as the portal reports it.
#[derive(Debug, Clone, Copy, PartialEq, Eq, Structural)]
pub struct Zone {
    pub x: i32,
    pub y: i32,
    pub width: u32,
    pub height: u32,
}

impl Zone {
    /// Where the zone ends to the right.
    pub open spec fn right(self) -> int {
        self.x + self.width
    }

    /// Where the zone ends at the bottom.
    pub open spec fn bottom(self) -> int {
        self.y + self.height
    }

    /// Whether the ends of the zone are integers of 32 bits.
    pub open spec fn bounded(self) -> bool {
        self.right() <= i32::MAX && self.bottom() <= i32::MAX
    }

    /// The bounds of the zone.
    pub open spec fn bounds(self) -> DesktopBounds {
        DesktopBounds {
            min_x: self.x,
            min_y: self.y,
            max_x: self.right() as i32,
            max_y: self.bottom() as i32,
        }
    }

    /// Whether the ends of the zone are integers of 32 bits.
    pub fn is_bounded(&self) -> (bounded: bool)
        ensures
            bounded == self.bounded(),
    {
        self.x as i64 + self.width as i64 <= i32::MAX as i64 && self.y as i64 + self.height as i64
            <= i32::MAX as i64
    }

    /// The bounds of the zone.
    pub fn zone_bounds(&self) -> (bounds: DesktopBounds)
        requires
            self.bounded(),
        ensures
            bounds == self.bounds(),
    {
        DesktopBounds {
            min_x: self.x,
            min_y: self.y,
            max_x: (self.x as i64 + self.width as i64) as i32,
            max_y: (self.y as i64 + self.height as i64) as i32,
        }
    }
}

/// Whether `low` is the smallest of the numbers, or the largest possible one
/// where there are none.
pub open spec fn is_lowest(low: i32, numbers: Seq<int>) -> bool {
    &&& forall|i: int| 0 <= i < numbers.len() ==> low <= #[trigger] numbers[i]
    &&& if numbers.len() == 0 {
        low == i32::MAX
    } else {
        numbers.contains(low as int)
    }
}

/// Whether `high` is the largest of the numbers, or the smallest possible one
/// where there are none.
pub open spec fn is_highest(high: i32, numbers: Seq<int>) -> bool {
    &&& forall|i: int| 0 <= i < numbers.len() ==> #[trigger] numbers[i] <= high
    &&& if numbers.len() == 0 {
        high == i32::MIN
    } else {
        numbers.contains(high as int)
    }
}

/// Whether the bounds are the bounding box of the zones.
pub open spec fn is_bounding_box(bounds: DesktopBounds, zones: Seq<Zone>) -> bool {
    &&& is_lowest(bounds.min_x, zones.map_values(|zone: Zone| zone.x as int))
    &&& is_lowest(bounds.min_y, zones.map_values(|zone: Zone| zone.y as int))
    &&& is_highest(bounds.max_x, zones.map_values(|zone: Zone| zone.right()))
    &&& is_highest(bounds.max_y, zones.map_values(|zone: Zone| zone.bottom()))
}

/// The smallest of some numbers and one more is the smaller of two.
proof fn lemma_lowest_of_more(low: i32, numbers: Seq<int>, more: Seq<int>, n: i32)
    requires
        is_lowest(low, numbers),
        more == numbers.push(n as int),
    ensures
        is_lowest(if n < low { n } else { low }, more),
{
    assert(more[numbers.len() as int] == n);
    if n >= low && numbers.len() > 0 {
        let i = choose|i: int| 0 <= i < numbers.len() && numbers[i] == low;
        assert(more[i] == low);
    }
}

/// The largest of some numbers and one more is the larger of two.
proof fn lemma_highest_of_more(high: i32, numbers: Seq<int>, more: Seq<int>, n: i32)
    requires
        is_highest(high, numbers),
        more == numbers.push(n as int),
    ensures
        is_highest(if n > high { n } else { high }, more),
{
    assert(more[numbers.len() as int] == n);
    if n <= high && numbers.len() > 0 {
        let i = choose|i: int| 0 <= i < numbers.len() && numbers[i] == high;
        assert(more[i] == high);
    }
}

/// Calculate the bounding box of all zones: the entire desktop.
pub fn bounding_box(zones: &Vec<Zone>) -> (bounds: DesktopBounds)
    requires
        forall|i: int| 0 <= i < zones@.len() ==> (#[trigger] zones@[i]).bounded(),
    ensures
        is_bounding_box(bounds, zones@),
{
    let mut bounds = DesktopBounds {
        min_x: i32::MAX,
        min_y: i32::MAX,
        max_x: i32::MIN,
        max_y: i32::MIN,
    };
    let mut i: usize = 0;
    while i < zones.len()
        invariant
            i <= zones@.len(),
            forall|j: int| 0 <= j < zones@.len() ==> (#[trigger] zones@[j]).bounded(),
            is_bounding_box(bounds, zones@.take(i as int)),
        decreases zones@.len() - i,
    {
        let zone = zones[i];
        assert(zones@[i as int].bounded());
        let outline = zone.zone_bounds();
        let right: i32 = outline.max_x;
        let bottom: i32 = outline.max_y;
        proof {
            let before = zones@.take(i as int);
            let after = zones@.take(i + 1);
            assert(after =~= before.push(zone));
            let x = |zone: Zone| zone.x as int;
            let y = |zone: Zone| zone.y as int;
            let r = |zone: Zone| zone.right();
            let b = |zone: Zone| zone.bottom();
            assert(after.map_values(x) =~= before.map_values(x).push(zone.x as int));
            assert(after.map_values(y) =~= before.map_values(y).push(zone.y as int));
            assert(after.map_values(r) =~= before.map_values(r).push(right as int));
            assert(after.map_values(b) =~= before.map_values(b).push(bottom as int));
            lemma_lowest_of_more(bounds.min_x, before.map_values(x), after.map_values(x), zone.x);
            lemma_lowest_of_more(bounds.min_y, before.map_values(y), after.map_values(y), zone.y);
            lemma_highest_of_more(bounds.max_x, before.map_values(r), after.map_values(r), right);
            lemma_highest_of_more(bounds.max_y, before.map_values(b), after.map_values(b), bottom);
        }
        bounds = DesktopBounds {
            min_x: if zone.x < bounds.min_x {
                zone.x
            } else {
                bounds.min_x
            },
            min_y: if zone.y < bounds.min_y {
                zone.y
            } else {
                bounds.min_y
            },
            max_x: if right > bounds.max_x {
                right
            } else {
                bounds.max_x
            },
            max_y: if bottom > bounds.max_y {
                bottom
            } else {
                bounds.max_y
            },
        };
        i = i + 1;
    }
    proof {
        assert(zones@.take(i as int) =~= zones@);
    }
    bounds
}

/// A pointer barrier: a line across which the pointer leaves the desktop.
#[derive(Debug, Clone, Copy, PartialEq, Eq, Structural)]
pub struct Barrier {
    /// The barrier's number, from 1.
    pub id: u32,
    pub x1: i32,
    pub y1: i32,
    pub x2: i32,
    pub y2: i32,
}

/// The barrier along the edge of the bounds on the side of `position`.
pub open spec fn edge_barrier(id: u32, position: Position, bounds: DesktopBounds) -> Barrier {
    let DesktopBounds { min_x, min_y, max_x, max_y } = bounds;
    match position {
        Position::LeftOf => Barrier { id, x1: min_x, y1: min_y, x2: min_x, y2: max_y },
        Position::RightOf => Barrier { id, x1: max_x, y1: min_y, x2: max_x, y2: max_y },
        Position::TopOf => Barrier { id, x1: min_x, y1: min_y, x2: max_x, y2: min_y },
        Position::BottomOf => Barrier { id, x1: min_x, y1: max_y, x2: max_x, y2: max_y },
    }
}

impl DesktopBounds {
    /// The barrier along the edge of the bounds on the side of `position`.
    pub fn barrier(&self, id: u32, position: Position) -> (barrier: Barrier)
        ensures
            barrier == edge_barrier(id, position, *self),
    {
        match position {
            Position::LeftOf => Barrier {
                id,
                x1: self.min_x,
                y1: self.min_y,
                x2: self.min_x,
                y2: self.max_y,
            },
            Position::RightOf => Barrier {
                id,
                x1: self.max_x,
                y1: self.min_y,
                x2: self.max_x,
                y2: self.max_y,
            },
            Position::TopOf => Barrier {
                id,
                x1: self.min_x,
                y1: self.min_y,
                x2: self.max_x,
                y2: self.min_y,
            },
            Position::BottomOf => Barrier {
                id,
                x1: self.min_x,
                y1: self.max_y,
                x2: self.max_x,
                y2: self.max_y,
            },
        }
    }
}

/// The clients placed directly beside the server, in the order of the
/// configurations.
pub open spec fn beside_server(configs: Seq<ClientConfig>) -> Seq<ConfigView>
    decreases configs.len(),
{
    if configs.len() == 0 {
        Seq::empty()
    } else if configs.last()@.beside_server() {
        beside_server(configs.drop_last()).push(configs.last()@)
    } else {
        beside_server(configs.drop_last())
    }
}

/// The client and the zone of each barrier: for each of the clients one barrier
/// at every zone, in their order.
pub open spec fn barrier_places(beside: Seq<ConfigView>, zones: Seq<Zone>) -> Seq<
    (ConfigView, Zone),
>
    decreases beside.len(),
{
    if beside.len() == 0 {
        Seq::empty()
    } else {
        barrier_places(beside.drop_last(), zones) + zones.map_values(
            |zone: Zone| (beside.last(), zone),
        )
    }
}

/// The barriers around the zones, and which client is behind which.
pub struct BarrierSetup {
    /// The desktop's bounds.
    pub bounds: DesktopBounds,
    /// The barriers to set.
    pub barriers: Vec<Barrier>,
    /// The name and position of the client behind each barrier.
    pub clients: HashMap<u32, (String, Position)>,
}

impl BarrierSetup {
    /// Whether there is one barrier for each of these clients and zones, along the
    /// edge of the zone on the side of the client, numbered from 1 in their order,
    /// and the client is found by the number.
    pub open spec fn holds(self, places: Seq<(ConfigView, Zone)>) -> bool {
        &&& self.barriers@.len() == places.len()
        &&& forall|k: int|
            0 <= k < places.len() ==> #[trigger] self.barriers@[k] == edge_barrier(
                (k + 1) as u32,
                places[k].0.position,
                places[k].1.bounds(),
            )
        &&& forall|id: u32| #[trigger]
            self.clients@.contains_key(id) <==> 1 <= id <= places.len()
        &&& forall|id: u32|
            1 <= id <= places.len() ==> (#[trigger] self.clients@[id]).0@ == places[id - 1].0.name
                && self.clients@[id].1 == places[id - 1].0.position
    }

    /// Whether there is one barrier for each client beside the server at each zone.
    pub open spec fn serves(self, beside: Seq<ConfigView>, zones: Seq<Zone>) -> bool {
        self.holds(barrier_places(beside, zones))
    }

    /// Add the barrier for a client at a zone.
    fn add_barrier(&mut self, config: &ClientConfig, zone: &Zone)
        requires
            zone.bounded(),
            old(self).barriers@.len() < u32::MAX,
        ensures
            final(self).bounds == old(self).bounds,
            final(self).barriers@.len() == old(self).barriers@.len() + 1,
            forall|places: Seq<(ConfigView, Zone)>| #[trigger]
                old(self).holds(places) ==> final(self).holds(places.push((config@, *zone))),
    {
        let ghost before = *self;
        let id: u32 = self.barriers.len() as u32 + 1;
        self.barriers.push(zone.zone_bounds().barrier(id, config.position));
        self.clients.insert(id, (config.name.clone(), config.position));
        proof {
            assert forall|places: Seq<(ConfigView, Zone)>| #[trigger]
                before.holds(places) implies self.holds(places.push((config@, *zone))) by {
                let longer = places.push((config@, *zone));
                assert forall|k: int| 0 <= k < longer.len() implies #[trigger] self.barriers@[k]
                    == edge_barrier(
                    (k + 1) as u32,
                    longer[k].0.position,
                    longer[k].1.bounds(),
                ) by {
                    if k < places.len() {
                        assert(before.barriers@[k] == self.barriers@[k]);
                    }
                }
                assert forall|id: u32| 1 <= id <= longer.len() implies (
                #[trigger] self.clients@[id]).0@ == longer[id - 1].0.name && self.clients@[id].1
                    == longer[id - 1].0.position by {
                    if id <= places.len() {
                        assert(before.clients@[id] == self.clients@[id]);
                    }
                }
            }
        }
    }
}

/// The barrier for a client and a zone is found by their places.
proof fn lemma_barrier_place(
    beside: Seq<ConfigView>,
    zones: Seq<Zone>,
    client: int,
    zone: int,
)
    requires
        0 <= client < beside.len(),
        0 <= zone < zones.len(),
    ensures
        0 <= client * zones.len() + zone < barrier_places(beside, zones).len(),
        barrier_places(beside, zones)[client * zones.len() + zone] == (beside[client], zones[zone]),
    decreases beside.len(),
{
    let before = beside.drop_last();
    lemma_barrier_count(before, zones);
    if client < before.len() {
        lemma_barrier_place(before, zones, client, zone);
    } else {
        assert(client == before.len());
        assert(client * zones.len() == before.len() * zones.len());
    }
}

/// There is one barrier for each pair of a client and a zone.
proof fn lemma_barrier_count(beside: Seq<ConfigView>, zones: Seq<Zone>)
    ensures
        barrier_places(beside, zones).len() == beside.len() * zones.len(),
    decreases beside.len(),
{
    if beside.len() > 0 {
        lemma_barrier_count(beside.drop_last(), zones);
        let n = beside.len() as int;
        let m = zones.len() as int;
        assert(n * m == (n - 1) * m + m) by (nonlinear_arith);
    } else {
        assert(0 * zones.len() == 0);
    }
}

/// A shorter list of configurations holds no more clients beside the server.
proof fn lemma_beside_server_grows(configs: Seq<ClientConfig>, n: int)
    requires
        0 <= n <= configs.len(),
    ensures
        beside_server(configs.take(n)).len() <= beside_server(configs).len(),
    decreases configs.len(),
{
    if n == configs.len() {
        assert(configs.take(n) =~= configs);
    } else {
        lemma_beside_server_grows(configs.drop_last(), n);
        assert(configs.drop_last().take(n) =~= configs.take(n));
    }
}

/// Set up pointer barriers at the edges of each zone: one on the side of each
/// client that is placed directly beside the server.
pub fn setup_barriers(zones: &Vec<Zone>, client_configs: &Vec<ClientConfig>) -> (setup:
    BarrierSetup)
    requires
        forall|i: int| 0 <= i < zones@.len() ==> (#[trigger] zones@[i]).bounded(),
        beside_server(client_configs@).len() * zones@.len() < u32::MAX,
    ensures
        is_bounding_box(setup.bounds, zones@),
        setup.serves(beside_server(client_configs@), zones@),
{
    let mut setup = BarrierSetup {
        bounds: bounding_box(zones),
        barriers: Vec::new(),
        clients: HashMap::new(),
    };
    let ghost configs = client_configs@;
    let ghost total = beside_server(configs).len();
    let mut i: usize = 0;
    proof {
        assert(configs.take(0) =~= Seq::<ClientConfig>::empty());
    }
    while i < client_configs.len()
        invariant
            configs == client_configs@,
            i <= configs.len(),
            forall|j: int| 0 <= j < zones@.len() ==> (#[trigger] zones@[j]).bounded(),
            total == beside_server(configs).len(),
            total * zones@.len() < u32::MAX,
            is_bounding_box(setup.bounds, zones@),
            setup.serves(beside_server(configs.take(i as int)), zones@),
        decreases configs.len() - i,
    {
        let config = &client_configs[i];
        let ghost beside = beside_server(configs.take(i as int));
        proof {
            lemma_beside_server_grows(configs, i + 1);
            assert(configs.take(i + 1).drop_last() =~= configs.take(i as int));
        }
        if config.is_beside_server() {
            let ghost longer = beside_server(configs.take(i + 1));
            let ghost places = barrier_places(beside, zones@);
            let ghost pair = |zone: Zone| (config@, zone);
            let mut j: usize = 0;
            proof {
                assert(longer.drop_last() =~= beside);
                lemma_barrier_count(longer, zones@);
                assert(longer.len() * zones@.len() <= total * zones@.len()) by (nonlinear_arith)
                    requires
                        longer.len() <= total,
                ;
                assert(places + zones@.take(0).map_values(pair) =~= places);
            }
            while j < zones.len()
                invariant
                    j <= zones@.len(),
                    forall|k: int| 0 <= k < zones@.len() ==> (#[trigger] zones@[k]).bounded(),
                    places.len() + zones@.len() < u32::MAX,
                    pair == (|zone: Zone| (config@, zone)),
                    is_bounding_box(setup.bounds, zones@),
                    setup.holds(places + zones@.take(j as int).map_values(pair)),
                decreases zones@.len() - j,
            {
                proof {
                    assert(places + zones@.take(j + 1).map_values(pair) =~= (places + zones@.take(
                        j as int,
                    ).map_values(pair)).push((config@, zones@[j as int])));
                }
                setup.add_barrier(config, &zones[j]);
                j = j + 1;
            }
            proof {
                assert(zones@.take(j as int) =~= zones@);
                assert(longer.last() == config@);
            }
        }
        i = i + 1;
    }
    proof {
        assert(configs.take(i as int) =~= configs);
    }
    setup
}

/// The event for the server that carries an input event.
pub open spec fn input_as_event(input: InputEvent) -> Event {
    match input {
        InputEvent::PointerAbsolute { x, y } => Event::PointerAbsolute { x, y },
        InputEvent::PointerRelative { dx, dy } => Event::PointerRelative { dx, dy },
        InputEvent::Button { button, is_press } => Event::Button { button, is_press },
        InputEvent::Key { keysym, is_press, mask, button } => Event::Key {
            keysym,
            is_press,
            mask,
            button,
        },
        InputEvent::Scroll { x, y } => Event::Scroll { x, y },
    }
}

/// The event for the server that carries an input event.
fn into_event(input: &InputEvent) -> (event: Event)
    ensures
        event == input_as_event(*input),
{
    match input {
        InputEvent::PointerAbsolute { x, y } => Event::PointerAbsolute { x: *x, y: *y },
        InputEvent::PointerRelative { dx, dy } => Event::PointerRelative { dx: *dx, dy: *dy },
        InputEvent::Button { button, is_press } => Event::Button {
            button: *button,
            is_press: *is_press,
        },
        InputEvent::Key { keysym, is_press, mask, button } => Event::Key {
            keysym: *keysym,
            is_press: *is_press,
            mask: *mask,
            button: *button,
        },
        InputEvent::Scroll { x, y } => Event::Scroll { x: *x, y: *y },
    }
}

/// Drain all pending input events, as events for the server in the same order.
pub fn handle_ei_events(context: &mut EiContext) -> (events: Vec<Event>)
    ensures
        events@ == old(context)@.input_events.map_values(
            |input: InputEvent| input_as_event(input),
        ),
        final(context)@ == (EiView { input_events: Seq::empty(), ..old(context)@ }),
{
    let inputs = context.take_input_events();
    let mut events: Vec<Event> = Vec::new();
    let mut i: usize = 0;
    while i < inputs.len()
        invariant
            i <= inputs@.len(),
            events@ == inputs@.take(i as int).map_values(
                |input: InputEvent| input_as_event(input),
            ),
        decreases inputs@.len() - i,
    {
        events.push(into_event(&inputs[i]));
        assert(inputs@.take(i + 1) =~= inputs@.take(i as int).push(inputs@[i as int]));
        i = i + 1;
    }
    assert(inputs@.take(i as int) =~= inputs@);
    events
}

/// The barrier that the portal says was crossed.
#[derive(Debug, Clone, Copy, PartialEq, Eq, Structural)]
pub enum ActivatedBarrier {
    /// The barrier of that number.
    Barrier(u32),
    /// One that the portal cannot tell.
    UnknownBarrier,
}

/// Why an activation is ignored.
#[derive(Debug, Clone, Copy, PartialEq, Eq, Structural)]
pub enum IgnoredActivation {
    /// It has no activation ID.
    NoActivationId,
    /// The portal cannot tell the barrier.
    UnknownBarrier,
    /// It names no barrier.
    NoBarrier,
    /// No client is behind the barrier.
    NoClient { barrier_id: u32 },
}

/// Why an activation is ignored, if it is.
pub open spec fn ignored_because(
    activation_id: Option<u32>,
    barrier: Option<ActivatedBarrier>,
    clients: Map<u32, (String, Position)>,
) -> Option<IgnoredActivation> {
    if activation_id is None {
        Some(IgnoredActivation::NoActivationId)
    } else {
        match barrier {
            None => Some(IgnoredActivation::NoBarrier),
            Some(ActivatedBarrier::UnknownBarrier) => Some(IgnoredActivation::UnknownBarrier),
            Some(ActivatedBarrier::Barrier(barrier_id)) => if clients.contains_key(barrier_id) {
                None
            } else {
                Some(IgnoredActivation::NoClient { barrier_id })
            },
        }
    }
}

/// Handle an activation that the portal signals: the pointer crossed a barrier.
///
/// The event for the server names the client behind the barrier. Without a
/// cursor position, the pointer is taken to be at the origin.
pub fn handle_activated_event(
    activation_id: Option<u32>,
    barrier: Option<ActivatedBarrier>,
    cursor: Option<Point>,
    clients: &HashMap<u32, (String, Position)>,
) -> (handled: Result<Event, IgnoredActivation>)
    ensures
        match handled {
            Err(reason) => ignored_because(activation_id, barrier, clients@) == Some(reason),
            Ok(event) => {
                &&& ignored_because(activation_id, barrier, clients@) is None
                &&& event matches Event::Activated {
                    client_name,
                    client_position,
                    activation_id: id,
                    cursor: at,
                }
                &&& Some(id) == activation_id
                &&& barrier matches Some(ActivatedBarrier::Barrier(barrier_id))
                &&& client_name@ == clients@[barrier_id].0@
                &&& client_position == clients@[barrier_id].1
                &&& match cursor {
                    Some(point) => at == point,
                    None => at.at(0, 0),
                }
            },
        },
{
    let activation_id: u32 = match activation_id {
        Some(id) => id,
        None => {
            return Err(IgnoredActivation::NoActivationId);
        },
    };
    let barrier_id: u32 = match barrier {
        Some(ActivatedBarrier::Barrier(id)) => id,
        Some(ActivatedBarrier::UnknownBarrier) => {
            return Err(IgnoredActivation::UnknownBarrier);
        },
        None => {
            return Err(IgnoredActivation::NoBarrier);
        },
    };
    let cursor = match cursor {
        Some(point) => point,
        None => Point::from_i32(0, 0),
    };
    match clients.get(&barrier_id) {
        Some(client) => Ok(
            Event::Activated {
                client_name: client.0.clone(),
                client_position: client.1,
                activation_id,
                cursor,
            },
        ),
        None => Err(IgnoredActivation::NoClient { barrier_id }),
    }
}

/// What the portal is asked to do.
#[derive(Debug, Clone, Copy)]
pub enum PortalCommand {
    /// Release the capture session.
    Release { activation_id: Option<u32>, cursor: Option<Point> },
    /// Enable the capture session.
    Enable,
    /// Disable the capture session.
    Disable,
    /// Nothing: the session is enabled or disabled already.
    Redundant,
    /// Nothing: the event is not for the portal.
    Unexpected,
}

/// The state of the capture session.
#[derive(Debug, Clone, Copy, PartialEq, Eq, Structural)]
pub struct PortalState {
    /// Whether the session is enabled.
    pub is_enabled: bool,
    /// Whether input events are read: while capture is active.
    pub poll_eis: bool,
}

impl PortalState {
    /// The state of a new session.
    pub fn new() -> (state: PortalState)
        ensures
            state == (PortalState { is_enabled: false, poll_eis: false }),
    {
        PortalState { is_enabled: false, poll_eis: false }
    }

    /// An activation was handled. Once it is forwarded to the server, input events
    /// are read.
    pub fn activated(&mut self, forwarded: bool)
        ensures
            final(self).is_enabled == old(self).is_enabled,
            final(self).poll_eis == (old(self).poll_eis || forwarded),
    {
        if forwarded {
            self.poll_eis = true;
        }
    }

    /// The portal ended the activation.
    pub fn deactivated(&mut self)
        ensures
            *final(self) == (PortalState { is_enabled: old(self).is_enabled, poll_eis: false }),
    {
        self.poll_eis = false;
    }

    /// The portal disabled the session.
    pub fn disabled(&mut self)
        ensures
            *final(self) == (PortalState { is_enabled: false, poll_eis: false }),
    {
        self.is_enabled = false;
        self.poll_eis = false;
    }

    /// What an event from the server asks of the portal.
    pub open spec fn command(self, event: Event) -> PortalCommand {
        match event {
            Event::ReleaseCapture { activation_id, cursor } => PortalCommand::Release {
                activation_id,
                cursor,
            },
            Event::EnableCapture => if self.is_enabled {
                PortalCommand::Redundant
            } else {
                PortalCommand::Enable
            },
            Event::DisableCapture => if self.is_enabled {
                PortalCommand::Disable
            } else {
                PortalCommand::Redundant
            },
            _ => PortalCommand::Unexpected,
        }
    }

    /// The state once a command was carried out or has failed.
    pub open spec fn after(self, command: PortalCommand, succeeded: bool) -> PortalState {
        match command {
            PortalCommand::Release { .. } => PortalState {
                is_enabled: self.is_enabled,
                poll_eis: false,
            },
            PortalCommand::Enable => PortalState {
                is_enabled: self.is_enabled || succeeded,
                poll_eis: self.poll_eis,
            },
            PortalCommand::Disable => PortalState {
                is_enabled: self.is_enabled && !succeeded,
                poll_eis: self.poll_eis,
            },
            PortalCommand::Redundant => self,
            PortalCommand::Unexpected => self,
        }
    }

    /// What an event from the server asks of the portal.
    pub fn handle_server_event(&self, event: &Event) -> (command: PortalCommand)
        ensures
            command == self.command(*event),
    {
        match event {
            Event::ReleaseCapture { activation_id, cursor } => PortalCommand::Release {
                activation_id: *activation_id,
                cursor: *cursor,
            },
            Event::EnableCapture => if self.is_enabled {
                PortalCommand::Redundant
            } else {
                PortalCommand::Enable
            },
            Event::DisableCapture => if self.is_enabled {
                PortalCommand::Disable
            } else {
                PortalCommand::Redundant
            },
            _ => PortalCommand::Unexpected,
        }
    }

    /// A command was carried out, or has failed.
    pub fn command_done(&mut self, command: PortalCommand, succeeded: bool)
        ensures
            *final(self) == old(self).after(command, succeeded),
    {
        match command {
            PortalCommand::Release { .. } => {
                self.poll_eis = false;
            },
            PortalCommand::Enable => {
                if succeeded {
                    self.is_enabled = true;
                }
            },
            PortalCommand::Disable => {
                if succeeded {
                    self.is_enabled = false;
                }
            },
            PortalCommand::Redundant => {},
            PortalCommand::Unexpected => {},
        }
    }
}

/// An enabled session is not enabled again, and a disabled one not disabled
/// again: once a request to enable or disable has been met, the same request is
/// redundant and leaves the state as it is.
pub proof fn law_repeated_requests_are_redundant(
    state: PortalState,
    request: Event,
    succeeded: bool,
)
    requires
        request is EnableCapture || request is DisableCapture,
    ensures
        ({
            let met = state.after(state.command(request), true);
            &&& met.is_enabled == (request is EnableCapture)
            &&& met.command(request) == PortalCommand::Redundant
            &&& met.after(met.command(request), succeeded) == met
        }),
{
}

/// A request that failed changes nothing, except that after a release no input
/// events are read, whether the portal met it or not.
pub proof fn law_failed_requests_change_nothing(state: PortalState, event: Event)
    ensures
        event is ReleaseCapture ==> state.after(state.command(event), false) == (PortalState {
            is_enabled: state.is_enabled,
            poll_eis: false,
        }),
        !(event is ReleaseCapture) ==> state.after(state.command(event), false) == state,
{
}

/// Each barrier has a number of its own, and its number leads to the client for
/// which it was set up.
pub proof fn law_barriers_lead_to_their_clients(
    setup: BarrierSetup,
    beside: Seq<ConfigView>,
    zones: Seq<Zone>,
    j: int,
    k: int,
)
    requires
        setup.serves(beside, zones),
        setup.barriers@.len() < u32::MAX,
        0 <= j < setup.barriers@.len(),
        0 <= k < setup.barriers@.len(),
    ensures
        setup.barriers@[k].id == k + 1,
        setup.barriers@[j].id == setup.barriers@[k].id ==> j == k,
        setup.clients@.contains_key(setup.barriers@[k].id),
        setup.clients@[setup.barriers@[k].id].0@ == barrier_places(beside, zones)[k].0.name,
        setup.clients@[setup.barriers@[k].id].1 == barrier_places(beside, zones)[k].0.position,
{
    assert(setup.barriers@[j].id == j + 1);
    assert(setup.barriers@[k].id == k + 1);
    let id = setup.barriers@[k].id;
    assert(setup.clients@[id].0@ == barrier_places(beside, zones)[id - 1].0.name);
}

/// Every client beside the server has a barrier at every zone, along the zone's
/// edge on its side, whose number leads to it.
pub proof fn law_clients_have_barriers_at_all_zones(
    setup: BarrierSetup,
    beside: Seq<ConfigView>,
    zones: Seq<Zone>,
    client: int,
    zone: int,
)
    requires
        setup.serves(beside, zones),
        setup.barriers@.len() < u32::MAX,
        0 <= client < beside.len(),
        0 <= zone < zones.len(),
    ensures
        setup.barriers@.len() == beside.len() * zones.len(),
        ({
            let id = (client * zones.len() + zone + 1) as u32;
            &&& setup.barriers@.contains(
                edge_barrier(id, beside[client].position, zones[zone].bounds()),
            )
            &&& setup.clients@.contains_key(id)
            &&& setup.clients@[id].0@ == beside[client].name
            &&& setup.clients@[id].1 == beside[client].position
        }),
{
    lemma_barrier_count(beside, zones);
    lemma_barrier_place(beside, zones, client, zone);
    let k = client * zones.len() + zone;
    law_barriers_lead_to_their_clients(setup, beside, zones, k, k);
    assert(setup.barriers@[k] == edge_barrier(
        (k + 1) as u32,
        beside[client].position,
        zones[zone].bounds(),
    ));
}

/// Every zone lies within the bounding box.
pub proof fn law_zones_lie_within_bounds(bounds: DesktopBounds, zones: Seq<Zone>, i: int)
    requires
        is_bounding_box(bounds, zones),
        0 <= i < zones.len(),
    ensures
        bounds.min_x <= zones[i].x,
        bounds.min_y <= zones[i].y,
        zones[i].right() <= bounds.max_x,
        zones[i].bottom() <= bounds.max_y,
{
    assert(zones.map_values(|zone: Zone| zone.x as int)[i] == zones[i].x);
    assert(zones.map_values(|zone: Zone| zone.y as int)[i] == zones[i].y);
    assert(zones.map_values(|zone: Zone| zone.right())[i] == zones[i].right());
    assert(zones.map_values(|zone: Zone| zone.bottom())[i] == zones[i].bottom());
}

/// A point of integer coordinates is on the desktop exactly when the integers
/// are within the bounds.
pub proof fn law_bounds_hold_integer_points(bounds: DesktopBounds, point: Point, x: int, y: int)
    requires
        point.at(x, y),
    ensures
        bounds.holds(point) <==> bounds.min_x <= x < bounds.max_x && bounds.min_y <= y
            < bounds.max_y,
{
    lemma_integer_against_bound(point.x, x, bounds.min_x);
    lemma_integer_against_bound(point.x, x, bounds.max_x);
    lemma_integer_against_bound(point.y, y, bounds.min_y);
    lemma_integer_against_bound(point.y, y, bounds.max_y);
}

/// A coordinate that is an integer compares with a bound as the integer does.
proof fn lemma_integer_against_bound(c: Coord, m: int, n: i32)
    requires
        c.integer(m),
    ensures
        Coord::of_int(n as int).at_most(c) <==> n <= m,
        c.below(Coord::of_int(n as int)) <==> m < n,
{
    let bound = Coord::of_int(n as int);
    crate::coord::law_integers_have_coordinates(n as int);
    crate::coord::law_integers_keep_their_order(bound, n as int, c, m);
    crate::coord::law_integers_keep_their_order(c, m, bound, n as int);
}

/// The clients beside the server are those of the configurations that are placed
/// beside it, and no others.
pub proof fn law_beside_server_holds_the_adjacent(configs: Seq<ClientConfig>, config: ConfigView)
    ensures
        beside_server(configs).contains(config) <==> config.beside_server() && exists|i: int|
            0 <= i < configs.len() && (#[trigger] configs[i])@ == config,
    decreases configs.len(),
{
    if configs.len() > 0 {
        let before = configs.drop_last();
        law_beside_server_holds_the_adjacent(before, config);
        let last = configs.len() - 1;
        assert(forall|i: int| 0 <= i < last ==> before[i] == configs[i]);
        let shorter = beside_server(before);
        if configs.last()@.beside_server() {
            let longer = beside_server(configs);
            assert(longer[shorter.len() as int] == configs[last]@);
            if shorter.contains(config) {
                let k = choose|k: int| 0 <= k < shorter.len() && shorter[k] == config;
                assert(longer[k] == config);
            }
            if longer.contains(config) && config != configs[last]@ {
                let k = choose|k: int| 0 <= k < longer.len() && longer[k] == config;
                assert(shorter[k] == config);
            }
        }
        if exists|i: int| 0 <= i < configs.len() && (#[trigger] configs[i])@ == config {
            let i = choose|i: int| 0 <= i < configs.len() && (#[trigger] configs[i])@ == config;
            if i < last {
                assert(before[i]@ == config);
            }
        }
    }
}

/// A point is what it is made of.
pub proof fn law_points_hold_their_coordinates(x: Coord, y: Coord, point: Point)
    requires
        call_ensures(Point::new, (x, y), point),
    ensures
        point.x == x,
        point.y == y,
{
}

/// A size is what it is made of.
pub proof fn law_sizes_hold_their_extents(width: u16, height: u16, size: Size)
    requires
        call_ensures(Size::new, (width, height), size),
    ensures
        size.width == width,
        size.height == height,
{
}

/// The width and the height of bounds, added to the lower ends, give the upper
/// ends.
pub proof fn law_bounds_are_measured(bounds: &DesktopBounds, width: i32, height: i32)
    requires
        call_ensures(DesktopBounds::width, (bounds,), width),
        call_ensures(DesktopBounds::height, (bounds,), height),
        bounds.measurable(),
    ensures
        bounds.min_x + width == bounds.max_x,
        bounds.min_y + height == bounds.max_y,
{
}

/// A point is on the desktop exactly when it is not left of it, not above it, left
/// of its right end and above its lower end.
pub proof fn law_points_are_on_the_desktop(bounds: &DesktopBounds, point: Point, inside: bool)
    requires
        call_ensures(DesktopBounds::contains, (bounds, point), inside),
    ensures
        inside == bounds.holds(point),
        inside <==> {
            &&& Coord::of_int(bounds.min_x as int).at_most(point.x)
            &&& point.x.below(Coord::of_int(bounds.max_x as int))
            &&& Coord::of_int(bounds.min_y as int).at_most(point.y)
            &&& point.y.below(Coord::of_int(bounds.max_y as int))
        },
{
}

/// The bounding box reaches over every zone, and no further than the outermost
/// ones; of no zones it is turned inside out.
pub proof fn law_bounding_box_is_tight(zones: &Vec<Zone>, bounds: DesktopBounds)
    requires
        call_ensures(bounding_box, (zones,), bounds),
        forall|i: int| 0 <= i < zones@.len() ==> (#[trigger] zones@[i]).bounded(),
    ensures
        forall|i: int|
            0 <= i < zones@.len() ==> {
                &&& bounds.min_x <= (#[trigger] zones@[i]).x
                &&& bounds.min_y <= zones@[i].y
                &&& zones@[i].x + zones@[i].width <= bounds.max_x
                &&& zones@[i].y + zones@[i].height <= bounds.max_y
            },
        zones@.len() > 0 ==> {
            &&& exists|i: int| 0 <= i < zones@.len() && (#[trigger] zones@[i]).x == bounds.min_x
            &&& exists|i: int| 0 <= i < zones@.len() && (#[trigger] zones@[i]).y == bounds.min_y
            &&& exists|i: int|
                0 <= i < zones@.len() && (#[trigger] zones@[i]).x + zones@[i].width
                    == bounds.max_x
            &&& exists|i: int|
                0 <= i < zones@.len() && (#[trigger] zones@[i]).y + zones@[i].height
                    == bounds.max_y
        },
        zones@.len() == 0 ==> {
            &&& bounds.min_x == 0x7FFF_FFFF && bounds.min_y == 0x7FFF_FFFF
            &&& bounds.max_x == -0x8000_0000 && bounds.max_y == -0x8000_0000
        },
{
    lemma_box_is_tight(zones@, bounds);
}

/// What a bounding box is, zone by zone.
proof fn lemma_box_is_tight(zones: Seq<Zone>, bounds: DesktopBounds)
    requires
        is_bounding_box(bounds, zones),
    ensures
        forall|i: int|
            0 <= i < zones.len() ==> {
                &&& bounds.min_x <= (#[trigger] zones[i]).x
                &&& bounds.min_y <= zones[i].y
                &&& zones[i].x + zones[i].width <= bounds.max_x
                &&& zones[i].y + zones[i].height <= bounds.max_y
            },
        zones.len() > 0 ==> {
            &&& exists|i: int| 0 <= i < zones.len() && (#[trigger] zones[i]).x == bounds.min_x
            &&& exists|i: int| 0 <= i < zones.len() && (#[trigger] zones[i]).y == bounds.min_y
            &&& exists|i: int|
                0 <= i < zones.len() && (#[trigger] zones[i]).x + zones[i].width == bounds.max_x
            &&& exists|i: int|
                0 <= i < zones.len() && (#[trigger] zones[i]).y + zones[i].height == bounds.max_y
        },
        zones.len() == 0 ==> {
            &&& bounds.min_x == 0x7FFF_FFFF && bounds.min_y == 0x7FFF_FFFF
            &&& bounds.max_x == -0x8000_0000 && bounds.max_y == -0x8000_0000
        },
{
    let xs = zones.map_values(|zone: Zone| zone.x as int);
    let ys = zones.map_values(|zone: Zone| zone.y as int);
    let rs = zones.map_values(|zone: Zone| zone.right());
    let bs = zones.map_values(|zone: Zone| zone.bottom());
    assert forall|i: int| 0 <= i < zones.len() implies {
        &&& bounds.min_x <= (#[trigger] zones[i]).x
        &&& bounds.min_y <= zones[i].y
        &&& zones[i].x + zones[i].width <= bounds.max_x
        &&& zones[i].y + zones[i].height <= bounds.max_y
    } by {
        law_zones_lie_within_bounds(bounds, zones, i);
    }
    if zones.len() > 0 {
        let i = choose|i: int| 0 <= i < xs.len() && xs[i] == bounds.min_x;
        assert(zones[i].x == bounds.min_x);
        let i = choose|i: int| 0 <= i < ys.len() && ys[i] == bounds.min_y;
        assert(zones[i].y == bounds.min_y);
        let i = choose|i: int| 0 <= i < rs.len() && rs[i] == bounds.max_x;
        assert(zones[i].x + zones[i].width == bounds.max_x);
        let i = choose|i: int| 0 <= i < bs.len() && bs[i] == bounds.max_y;
        assert(zones[i].y + zones[i].height == bounds.max_y);
    }
}

/// The clients beside the server are gathered in their order: one more
/// configuration adds its client exactly when its reference is "self".
pub proof fn law_adjacent_clients_are_gathered(configs: Seq<ClientConfig>, config: ClientConfig)
    ensures
        beside_server(Seq::empty()) == Seq::<ConfigView>::empty(),
        beside_server(configs.push(config)) == if config.reference@ == "self"@ {
            beside_server(configs).push(
                ConfigView {
                    name: config.name@,
                    position: config.position,
                    reference: config.reference@,
                },
            )
        } else {
            beside_server(configs)
        },
{
    assert(configs.push(config).drop_last() =~= configs);
}

/// For each client beside the server and each zone one barrier is set up. It runs
/// along the zone's left edge for a client to the left, along the right edge for
/// one to the right, and so on, over the whole length of the edge. Its number is
/// one more than its place among the barriers, and leads to the client. The
/// desktop's bounds reach over all zones.
pub proof fn law_barriers_run_along_the_zones(
    zones: &Vec<Zone>,
    configs: &Vec<ClientConfig>,
    setup: BarrierSetup,
    client: int,
    zone: int,
)
    requires
        call_ensures(setup_barriers, (zones, configs), setup),
        forall|i: int| 0 <= i < zones@.len() ==> (#[trigger] zones@[i]).bounded(),
        beside_server(configs@).len() * zones@.len() < u32::MAX,
        0 <= client < beside_server(configs@).len(),
        0 <= zone < zones@.len(),
    ensures
        setup.barriers@.len() == beside_server(configs@).len() * zones@.len(),
        ({
            let k = client * zones@.len() + zone;
            let config = beside_server(configs@)[client];
            let area = zones@[zone];
            let barrier = setup.barriers@[k];
            let left = area.x as int;
            let right = area.x + area.width;
            let top = area.y as int;
            let bottom = area.y + area.height;
            &&& 0 <= k < setup.barriers@.len()
            &&& barrier.id == k + 1
            &&& match config.position {
                Position::LeftOf => barrier.x1 == left && barrier.x2 == left && barrier.y1 == top
                    && barrier.y2 == bottom,
                Position::RightOf => barrier.x1 == right && barrier.x2 == right && barrier.y1
                    == top && barrier.y2 == bottom,
                Position::TopOf => barrier.x1 == left && barrier.x2 == right && barrier.y1 == top
                    && barrier.y2 == top,
                Position::BottomOf => barrier.x1 == left && barrier.x2 == right && barrier.y1
                    == bottom && barrier.y2 == bottom,
            }
            &&& setup.clients@.contains_key(barrier.id)
            &&& setup.clients@[barrier.id].0@ == config.name
            &&& setup.clients@[barrier.id].1 == config.position
        }),
        setup.bounds.min_x <= zones@[zone].x,
        setup.bounds.min_y <= zones@[zone].y,
        zones@[zone].x + zones@[zone].width <= setup.bounds.max_x,
        zones@[zone].y + zones@[zone].height <= setup.bounds.max_y,
{
    let beside = beside_server(configs@);
    let k = client * zones@.len() + zone;
    lemma_barrier_count(beside, zones@);
    lemma_barrier_place(beside, zones@, client, zone);
    law_barriers_lead_to_their_clients(setup, beside, zones@, k, k);
    lemma_box_is_tight(zones@, setup.bounds);
    assert(zones@[zone].bounded());
}

/// No barrier leads to a client but those that were set up.
pub proof fn law_no_other_barriers(
    zones: &Vec<Zone>,
    configs: &Vec<ClientConfig>,
    setup: BarrierSetup,
    id: u32,
)
    requires
        call_ensures(setup_barriers, (zones, configs), setup),
        forall|i: int| 0 <= i < zones@.len() ==> (#[trigger] zones@[i]).bounded(),
        beside_server(configs@).len() * zones@.len() < u32::MAX,
    ensures
        setup.clients@.contains_key(id) <==> 1 <= id <= beside_server(configs@).len()
            * zones@.len(),
        setup.barriers@.len() == beside_server(configs@).len() * zones@.len(),
{
    lemma_barrier_count(beside_server(configs@), zones@);
}

/// An activation is handed on exactly when it has an ID and names a barrier that
/// leads to a client. The event carries that ID, the client's name and position,
/// and the place of the pointer, or the origin where none is given.
pub proof fn law_activations_name_their_client(
    activation_id: Option<u32>,
    barrier: Option<ActivatedBarrier>,
    cursor: Option<Point>,
    clients: &HashMap<u32, (String, Position)>,
    handled: Result<Event, IgnoredActivation>,
)
    requires
        call_ensures(handle_activated_event, (activation_id, barrier, cursor, clients), handled),
    ensures
        match (activation_id, barrier) {
            (None, _) => handled == Err::<Event, IgnoredActivation>(
                IgnoredActivation::NoActivationId,
            ),
            (Some(_), None) => handled == Err::<Event, IgnoredActivation>(
                IgnoredActivation::NoBarrier,
            ),
            (Some(_), Some(ActivatedBarrier::UnknownBarrier)) => handled == Err::<
                Event,
                IgnoredActivation,
            >(IgnoredActivation::UnknownBarrier),
            (Some(id), Some(ActivatedBarrier::Barrier(number))) => if clients@.contains_key(
                number,
            ) {
                &&& handled matches Ok(
                    Event::Activated { client_name, client_position, activation_id: told, cursor: at },
                )
                &&& told == id
                &&& client_name@ == clients@[number].0@
                &&& client_position == clients@[number].1
                &&& cursor matches Some(point) ==> at == point
                &&& cursor is None ==> at.x.bits == 0 && at.y.bits == 0
            } else {
                handled == Err::<Event, IgnoredActivation>(
                    IgnoredActivation::NoClient { barrier_id: number },
                )
            },
        },
{
}

/// A session starts disabled and unread. A forwarded activation starts the reading
/// of input, and the end of an activation stops it; neither enables or disables
/// the session. A session that the portal disables is neither enabled nor read.
pub proof fn law_signals_move_the_session(
    fresh: PortalState,
    activated: &mut PortalState,
    forwarded: bool,
    deactivated: &mut PortalState,
    disabled: &mut PortalState,
)
    requires
        call_ensures(PortalState::new, (), fresh),
        call_ensures(PortalState::activated, (activated, forwarded), ()),
        call_ensures(PortalState::deactivated, (deactivated,), ()),
        call_ensures(PortalState::disabled, (disabled,), ()),
    ensures
        !fresh.is_enabled && !fresh.poll_eis,
        final(activated).is_enabled == old(activated).is_enabled,
        forwarded ==> final(activated).poll_eis,
        !forwarded ==> final(activated).poll_eis == old(activated).poll_eis,
        final(deactivated).is_enabled == old(deactivated).is_enabled,
        !final(deactivated).poll_eis,
        !final(disabled).is_enabled && !final(disabled).poll_eis,
{
}

/// What the server asks reaches the portal: a release with the very activation and
/// place that it names, whatever the state; a request to enable only while the
/// session is disabled, and one to disable only while it is enabled. No other
/// event asks anything of it.
pub proof fn law_requests_reach_the_portal(
    state: &PortalState,
    event: &Event,
    command: PortalCommand,
)
    requires
        call_ensures(PortalState::handle_server_event, (state, event), command),
    ensures
        match *event {
            Event::ReleaseCapture { activation_id, cursor } => {
                &&& command matches PortalCommand::Release { activation_id: id, cursor: at }
                &&& id == activation_id
                &&& at == cursor
            },
            Event::EnableCapture => (command is Enable <==> !state.is_enabled) && (
            command is Redundant <==> state.is_enabled),
            Event::DisableCapture => (command is Disable <==> state.is_enabled) && (
            command is Redundant <==> !state.is_enabled),
            _ => command is Unexpected,
        },
{
}

/// A command moves the session to where it says: after a release no input is read;
/// only a command that succeeded enables or disables the session; and nothing else
/// changes.
pub proof fn law_commands_move_the_session(
    state: &mut PortalState,
    command: PortalCommand,
    succeeded: bool,
)
    requires
        call_ensures(PortalState::command_done, (state, command, succeeded), ()),
    ensures
        command is Release ==> !final(state).poll_eis,
        !(command is Release) ==> final(state).poll_eis == old(state).poll_eis,
        command is Enable && succeeded ==> final(state).is_enabled,
        command is Disable && succeeded ==> !final(state).is_enabled,
        !succeeded ==> final(state).is_enabled == old(state).is_enabled,
        !(command is Enable) && !(command is Disable) ==> final(state).is_enabled == old(
            state,
        ).is_enabled,
{
}

/// All input events are handed on, as many and in the same order, each with what it
/// carries: the coordinates, the button or the key, and whether it was pressed.
/// None is left in the queue, and nothing else of the connection changes.
pub proof fn law_input_is_handed_on_unchanged(context: &mut EiContext, events: Vec<Event>, i: int)
    requires
        call_ensures(handle_ei_events, (context,), events),
        0 <= i < old(context).input_events@.len(),
    ensures
        events@.len() == old(context).input_events@.len(),
        match old(context).input_events@[i] {
            InputEvent::PointerAbsolute { x, y } => events@[i] == (Event::PointerAbsolute { x, y }),
            InputEvent::PointerRelative { dx, dy } => events@[i] == (Event::PointerRelative {
                dx,
                dy,
            }),
            InputEvent::Button { button, is_press } => events@[i] == (Event::Button {
                button,
                is_press,
            }),
            InputEvent::Key { keysym, is_press, mask, button } => events@[i] == (Event::Key {
                keysym,
                is_press,
                mask,
                button,
            }),
            InputEvent::Scroll { x, y } => events@[i] == (Event::Scroll { x, y }),
        },
        final(context)@.input_events.len() == 0,
        final(context)@.devices == old(context)@.devices,
        final(context)@.pending_devices == old(context)@.pending_devices,
        final(context)@.capabilities == old(context)@.capabilities,
        final(context)@.keyboard == old(context)@.keyboard,
{
}

/// Without input events nothing is handed on.
pub proof fn law_nothing_is_handed_on_without_input(context: &mut EiContext, events: Vec<Event>)
    requires
        call_ensures(handle_ei_events, (context,), events),
        old(context).input_events@.len() == 0,
    ensures
        events@.len() == 0,
{
}

/// Bounds can be measured exactly when their width and height are integers of 32
/// bits, and a zone is bounded exactly when its far ends are.
pub proof fn law_limits_are_told(
    bounds: &DesktopBounds,
    measurable: bool,
    zone: &Zone,
    bounded: bool,
)
    requires
        call_ensures(DesktopBounds::is_measurable, (bounds,), measurable),
        call_ensures(Zone::is_bounded, (zone,), bounded),
    ensures
        measurable <==> {
            &&& -0x8000_0000 <= bounds.max_x - bounds.min_x <= 0x7FFF_FFFF
            &&& -0x8000_0000 <= bounds.max_y - bounds.min_y <= 0x7FFF_FFFF
        },
        bounded <==> zone.x + zone.width <= 0x7FFF_FFFF && zone.y + zone.height <= 0x7FFF_FFFF,
{
}

/// A zone reaches from its corner as far as it is wide and high. A barrier runs
/// along the whole edge on its side, and across nothing else.
pub proof fn law_zones_reach_over_their_extent(
    zone: &Zone,
    bounds: DesktopBounds,
    id: u32,
    position: Position,
    barrier: Barrier,
)
    requires
        call_ensures(Zone::zone_bounds, (zone,), bounds),
        call_ensures(DesktopBounds::barrier, (&bounds, id, position), barrier),
        zone.x + zone.width <= 0x7FFF_FFFF,
        zone.y + zone.height <= 0x7FFF_FFFF,
    ensures
        bounds.min_x == zone.x,
        bounds.min_y == zone.y,
        bounds.max_x - bounds.min_x == zone.width,
        bounds.max_y - bounds.min_y == zone.height,
        barrier.id == id,
        position == Position::LeftOf || position == Position::RightOf ==> {
            &&& barrier.x1 == barrier.x2
            &&& barrier.y1 == zone.y
            &&& barrier.y2 == zone.y + zone.height
        },
        position == Position::TopOf || position == Position::BottomOf ==> {
            &&& barrier.y1 == barrier.y2
            &&& barrier.x1 == zone.x
            &&& barrier.x2 == zone.x + zone.width
        },
        position == Position::LeftOf ==> barrier.x1 == zone.x,
        position == Position::RightOf ==> barrier.x1 == zone.x + zone.width,
        position == Position::TopOf ==> barrier.y1 == zone.y,
        position == Position::BottomOf ==> barrier.y1 == zone.y + zone.height,
{
}

/// Any barrier runs along an edge of the bounds that it is made for.
pub proof fn law_barriers_are_edges(
    bounds: &DesktopBounds,
    id: u32,
    position: Position,
    barrier: Barrier,
)
    requires
        call_ensures(DesktopBounds::barrier, (bounds, id, position), barrier),
    ensures
        barrier.id == id,
        barrier.x1 == if position == Position::RightOf {
            bounds.max_x
        } else {
            bounds.min_x
        },
        barrier.x2 == if position == Position::LeftOf {
            bounds.min_x
        } else {
            bounds.max_x
        },
        barrier.y1 == if position == Position::BottomOf {
            bounds.max_y
        } else {
            bounds.min_y
        },
        barrier.y2 == if position == Position::TopOf {
            bounds.min_y
        } else {
            bounds.max_y
        },
{
}

/// The bounds that are set up with the barriers are the bounding box of the zones.
pub proof fn law_setup_has_the_bounding_box(
    zones: &Vec<Zone>,
    configs: &Vec<ClientConfig>,
    setup: BarrierSetup,
    bounds: DesktopBounds,
)
    requires
        call_ensures(setup_barriers, (zones, configs), setup),
        call_ensures(bounding_box, (zones,), bounds),
        forall|i: int| 0 <= i < zones@.len() ==> (#[trigger] zones@[i]).bounded(),
        beside_server(configs@).len() * zones@.len() < u32::MAX,
    ensures
        setup.bounds.min_x == bounds.min_x,
        setup.bounds.min_y == bounds.min_y,
        setup.bounds.max_x == bounds.max_x,
        setup.bounds.max_y == bounds.max_y,
{
    lemma_box_is_tight(zones@, setup.bounds);
    lemma_box_is_tight(zones@, bounds);
}

/// Points are equal exactly when their coordinates are, and the point of two
/// integers has the coordinates of these integers, the first to the right and the
/// second downwards.
pub proof fn law_points_are_their_coordinates(
    a: Point,
    b: Point,
    same: bool,
    x: i32,
    y: i32,
    point: Point,
    across: Coord,
    down: Coord,
)
    requires
        call_ensures(Point::eq, (&a, &b), same),
        call_ensures(Point::from_i32, (x, y), point),
        call_ensures(Coord::from_i32, (x,), across),
        call_ensures(Coord::from_i32, (y,), down),
    ensures
        same <==> {
            &&& a.x.at_most(b.x)
            &&& b.x.at_most(a.x)
            &&& a.y.at_most(b.y)
            &&& b.y.at_most(a.y)
        },
        point.x == across,
        point.y == down,
{
    crate::coord::law_integers_keep_their_order(point.x, x as int, across, x as int);
    crate::coord::law_integers_keep_their_order(point.y, y as int, down, y as int);
}

/// The bounds that are assumed are those of a desktop of 1920 by 1080 pixels at the
/// origin.
pub proof fn law_assumed_bounds(bounds: DesktopBounds, width: i32, height: i32)
    requires
        call_ensures(DesktopBounds::assumed, (), bounds),
        call_ensures(DesktopBounds::width, (&bounds,), width),
        call_ensures(DesktopBounds::height, (&bounds,), height),
    ensures
        bounds.min_x == 0,
        bounds.min_y == 0,
        width == 1920,
        height == 1080,
{
}

} // verus!
