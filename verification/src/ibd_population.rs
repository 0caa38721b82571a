//! Populating a new script IBD: which features of the context block become
//! property boxes (each with the ports of its type) or boundary ports, where
//! the boxes go, and which connectors of the context become edges between
//! those presentations.

use vstd::prelude::*;
use crate::model_build::ElementId;
use crate::model_script::{ElementKind, RelationshipKind};

verus! {

/// Where the first property box goes, across and down.
pub const BOX_FIRST_X: u128 = 120;
pub const BOX_FIRST_Y: u128 = 120;
/// The distance from one box to the next in a row.
pub const BOX_STEP_X: u128 = 240;
/// A row ends once the next box would start beyond this.
pub const BOX_ROW_END_X: u128 = 780;
/// The gap below the last box of a row.
pub const BOX_ROW_GAP: u128 = 80;
/// A box is at least this high; otherwise its header and port rows decide.
pub const BOX_MIN_HEIGHT: u128 = 100;
pub const BOX_HEADER: u128 = 52;
pub const PORT_ROW_HEIGHT: u128 = 28;

/// A feature of the context block, with the children of its type.
#[derive(Debug, Clone)]
pub struct ContextFeature {
    pub id: ElementId,
    pub kind: ElementKind,
    pub type_children: Vec<(ElementId, ElementKind)>,
}

/// One end of a connector as the model states it.
#[derive(Debug, Clone)]
pub struct ConnectorEndRecord {
    pub property_path: Vec<ElementId>,
    pub role: ElementId,
    pub port: Option<ElementId>,
}

/// A relationship of the project; `context` is the context of its connector
/// semantics, if it has any.
#[derive(Debug, Clone)]
pub struct ConnectorRecord {
    pub kind: RelationshipKind,
    pub context: Option<ElementId>,
    pub source: ConnectorEndRecord,
    pub target: ConnectorEndRecord,
}

/// A port of a property box: the port, which side it is on and its row.
#[derive(Debug, Clone, Copy)]
pub struct PortSlot {
    pub port: ElementId,
    pub right_side: bool,
    pub row: usize,
}

/// A property box: the feature it presents, its place and height, and its ports.
#[derive(Debug, Clone)]
pub struct PropertyBox {
    pub feature: usize,
    pub x: u128,
    pub y: u128,
    pub height: u128,
    pub ports: Vec<PortSlot>,
}

/// A connector end presentation: a boundary port, a property box, or a port
/// of a property box.
#[derive(Debug, Clone, Copy, PartialEq, Eq, Structural)]
pub enum EndSlot {
    Boundary(usize),
    Property(usize),
    Port(usize, usize),
}

/// A connector edge: the relationship and its two end presentations.
#[derive(Debug, Clone, Copy)]
pub struct ConnectorSlot {
    pub relationship: usize,
    pub source: EndSlot,
    pub target: EndSlot,
}

/// What populating an IBD adds: property boxes, boundary ports (by feature
/// position) and connector edges.
#[derive(Debug, Clone)]
pub struct IbdPopulation {
    pub boxes: Vec<PropertyBox>,
    pub boundary_ports: Vec<usize>,
    pub connectors: Vec<ConnectorSlot>,
}

pub open spec fn is_port_kind(k: ElementKind) -> bool {
    k == ElementKind::ProxyPort || k == ElementKind::FullPort
}

pub open spec fn is_structural_kind(k: ElementKind) -> bool {
    k == ElementKind::PartProperty || k == ElementKind::ReferenceProperty
}

/// The ports among a type's children, in order.
pub open spec fn port_children(cs: Seq<(ElementId, ElementKind)>) -> Seq<ElementId>
    decreases cs.len(),
{
    if cs.len() == 0 {
        Seq::empty()
    } else if is_port_kind(cs.last().1) {
        port_children(cs.drop_last()).push(cs.last().0)
    } else {
        port_children(cs.drop_last())
    }
}

/// The height of a box with `ports` ports, two to a row.
pub open spec fn box_height(ports: int) -> int {
    let h = BOX_HEADER + ((ports + 1) / 2) * PORT_ROW_HEIGHT;
    if h < BOX_MIN_HEIGHT { BOX_MIN_HEIGHT as int } else { h }
}

pub struct BoxView {
    pub feature: int,
    pub x: int,
    pub y: int,
    pub height: int,
    pub ports: Seq<ElementId>,
}

pub struct GridView {
    pub boxes: Seq<BoxView>,
    pub boundary: Seq<int>,
    pub x: int,
    pub y: int,
}

/// The boxes and boundary ports of the first `n` features, and where the
/// next box goes: part and reference properties get a box in a row that
/// wraps once the next box would start beyond the row's end, ports become
/// boundary ports, other features are left out.
pub open spec fn grid(features: Seq<ContextFeature>, n: int) -> GridView
    decreases n,
{
    if n <= 0 {
        GridView { boxes: Seq::empty(), boundary: Seq::empty(), x: BOX_FIRST_X as int, y: BOX_FIRST_Y as int }
    } else {
        let g = grid(features, n - 1);
        let f = features[n - 1];
        if is_structural_kind(f.kind) {
            let ports = port_children(f.type_children@);
            let h = box_height(ports.len() as int);
            let b = BoxView { feature: n - 1, x: g.x, y: g.y, height: h, ports };
            let nx = g.x + BOX_STEP_X;
            if nx > BOX_ROW_END_X {
                GridView { boxes: g.boxes.push(b), boundary: g.boundary, x: BOX_FIRST_X as int,
                    y: g.y + h + BOX_ROW_GAP }
            } else {
                GridView { boxes: g.boxes.push(b), boundary: g.boundary, x: nx, y: g.y }
            }
        } else if is_port_kind(f.kind) {
            GridView { boundary: g.boundary.push(n - 1), ..g }
        } else {
            g
        }
    }
}

/// The first boundary port from position `k` on that presents `port`.
pub open spec fn first_boundary(features: Seq<ContextFeature>, boundary: Seq<int>, port: ElementId, k: int) -> Option<int>
    decreases boundary.len() - k,
{
    if k < 0 || k >= boundary.len() {
        None
    } else if features[boundary[k]].id == port {
        Some(k)
    } else {
        first_boundary(features, boundary, port, k + 1)
    }
}

/// The first position from `j` on of `port` among a box's ports.
pub open spec fn first_port(ports: Seq<ElementId>, port: ElementId, j: int) -> Option<int>
    decreases ports.len() - j,
{
    if j < 0 || j >= ports.len() {
        None
    } else if ports[j] == port {
        Some(j)
    } else {
        first_port(ports, port, j + 1)
    }
}

/// Whether a box's property path (the one feature it presents) is `path`.
pub open spec fn box_path_is(features: Seq<ContextFeature>, b: BoxView, path: Seq<ElementId>) -> bool {
    path == seq![features[b.feature].id]
}

/// The first box from position `i` on with a port `port` at `path`, and the port's position.
pub open spec fn first_nested(
    features: Seq<ContextFeature>,
    boxes: Seq<BoxView>,
    port: ElementId,
    path: Seq<ElementId>,
    i: int,
) -> Option<(int, int)>
    decreases boxes.len() - i,
{
    if i < 0 || i >= boxes.len() {
        None
    } else if box_path_is(features, boxes[i], path) && first_port(boxes[i].ports, port, 0) is Some {
        Some((i, first_port(boxes[i].ports, port, 0).unwrap()))
    } else {
        first_nested(features, boxes, port, path, i + 1)
    }
}

/// The first box from position `i` on presenting `role` at `path`.
pub open spec fn first_box(features: Seq<ContextFeature>, boxes: Seq<BoxView>, role: ElementId, path: Seq<ElementId>, i: int) -> Option<int>
    decreases boxes.len() - i,
{
    if i < 0 || i >= boxes.len() {
        None
    } else if features[boxes[i].feature].id == role && box_path_is(features, boxes[i], path) {
        Some(i)
    } else {
        first_box(features, boxes, role, path, i + 1)
    }
}

/// The presentation of a connector end: a port end with an empty path is a
/// boundary port, a port end with a path a port of a box, any other end a box.
pub open spec fn end_slot(features: Seq<ContextFeature>, g: GridView, end: ConnectorEndRecord) -> Option<EndSlot> {
    let path = end.property_path@;
    match end.port {
        Some(p) => if path.len() == 0 {
            match first_boundary(features, g.boundary, p, 0) {
                Some(b) => Some(EndSlot::Boundary(b as usize)),
                None => None,
            }
        } else {
            match first_nested(features, g.boxes, p, path, 0) {
                Some((i, j)) => Some(EndSlot::Port(i as usize, j as usize)),
                None => None,
            }
        },
        None => match first_box(features, g.boxes, end.role, path, 0) {
            Some(i) => Some(EndSlot::Property(i as usize)),
            None => None,
        },
    }
}

pub struct ConnectorView {
    pub relationship: int,
    pub source: EndSlot,
    pub target: EndSlot,
}

/// The edges of the first `n` relationships: each connector of `context`
/// whose two ends both have a presentation, in order.
pub open spec fn connector_edges(
    features: Seq<ContextFeature>,
    g: GridView,
    rels: Seq<ConnectorRecord>,
    context: ElementId,
    n: int,
) -> Seq<ConnectorView>
    decreases n,
{
    if n <= 0 {
        Seq::empty()
    } else {
        let acc = connector_edges(features, g, rels, context, n - 1);
        let r = rels[n - 1];
        if r.kind == RelationshipKind::Connector && r.context == Some(context) && end_slot(features, g, r.source)
            is Some && end_slot(features, g, r.target) is Some {
            acc.push(ConnectorView {
                relationship: n - 1,
                source: end_slot(features, g, r.source).unwrap(),
                target: end_slot(features, g, r.target).unwrap(),
            })
        } else {
            acc
        }
    }
}

pub open spec fn box_view(b: PropertyBox) -> BoxView {
    BoxView {
        feature: b.feature as int,
        x: b.x as int,
        y: b.y as int,
        height: b.height as int,
        ports: b.ports@.map_values(|s: PortSlot| s.port),
    }
}

pub open spec fn connector_view(c: ConnectorSlot) -> ConnectorView {
    ConnectorView { relationship: c.relationship as int, source: c.source, target: c.target }
}

/// Each port of a box alternates sides, starting on the right, two to a row.
pub open spec fn ports_placed(b: PropertyBox) -> bool {
    forall|j: int|
        0 <= j < b.ports@.len() ==> (#[trigger] b.ports@[j]).right_side == (j % 2 == 0) && b.ports@[j].row
            == j / 2
}

pub open spec fn opt_int(o: Option<usize>) -> Option<int> {
    match o {
        Some(k) => Some(k as int),
        None => None,
    }
}

pub open spec fn opt_pair(o: Option<(usize, usize)>) -> Option<(int, int)> {
    match o {
        Some((i, j)) => Some((i as int, j as int)),
        None => None,
    }
}

fn is_port(k: ElementKind) -> (r: bool)
    ensures
        r == is_port_kind(k),
{
    match k {
        ElementKind::ProxyPort | ElementKind::FullPort => true,
        _ => false,
    }
}

fn is_structural(k: ElementKind) -> (r: bool)
    ensures
        r == is_structural_kind(k),
{
    match k {
        ElementKind::PartProperty | ElementKind::ReferenceProperty => true,
        _ => false,
    }
}

fn box_ports(cs: &Vec<(ElementId, ElementKind)>) -> (r: Vec<PortSlot>)
    requires
        cs@.len() <= u32::MAX,
    ensures
        r@.map_values(|s: PortSlot| s.port) == port_children(cs@),
        r@.len() <= cs@.len(),
        forall|j: int| 0 <= j < r@.len() ==> (#[trigger] r@[j]).right_side == (j % 2 == 0) && r@[j].row == j / 2,
{
    let mut out: Vec<PortSlot> = Vec::new();
    let mut i: usize = 0;
    while i < cs.len()
        invariant
            i <= cs@.len() <= u32::MAX,
            out@.map_values(|s: PortSlot| s.port) == port_children(cs@.take(i as int)),
            out@.len() <= i,
            forall|j: int| 0 <= j < out@.len() ==> (#[trigger] out@[j]).right_side == (j % 2 == 0) && out@[j].row == j / 2,
        decreases cs.len() - i,
    {
        assert(cs@.take(i + 1).drop_last() =~= cs@.take(i as int));
        if is_port(cs[i].1) {
            let n = out.len();
            let ghost before = out@;
            out.push(PortSlot { port: cs[i].0, right_side: n % 2 == 0, row: n / 2 });
            assert(out@.map_values(|s: PortSlot| s.port) =~= before.map_values(|s: PortSlot| s.port).push(cs@[i as int].0));
        }
        i = i + 1;
    }
    assert(cs@.take(i as int) =~= cs@);
    out
}

proof fn lemma_box_height_bound(p: int)
    requires
        0 <= p <= u32::MAX,
    ensures
        BOX_MIN_HEIGHT <= box_height(p) <= 0x10_0000_0000,
{
    assert(((p + 1) / 2) * PORT_ROW_HEIGHT <= 0x1_0000_0000 * 28) by (nonlinear_arith)
        requires
            0 <= p <= u32::MAX,
    ;
}

/// The boxes and boundary ports of a new IBD, as [`grid`] places them.
fn place_features(features: &Vec<ContextFeature>) -> (r: (Vec<PropertyBox>, Vec<usize>))
    requires
        features@.len() <= u32::MAX,
        forall|i: int| 0 <= i < features@.len() ==> (#[trigger] features@[i]).type_children@.len() <= u32::MAX,
    ensures
        r.0@.map_values(|b: PropertyBox| box_view(b)) == grid(features@, features@.len() as int).boxes,
        r.1@.map_values(|k: usize| k as int) == grid(features@, features@.len() as int).boundary,
        forall|i: int| 0 <= i < r.0@.len() ==> ports_placed(#[trigger] r.0@[i]),
{
    let mut boxes: Vec<PropertyBox> = Vec::new();
    let mut boundary: Vec<usize> = Vec::new();
    let mut x: u128 = BOX_FIRST_X;
    let mut y: u128 = BOX_FIRST_Y;
    let mut i: usize = 0;
    while i < features.len()
        invariant
            i <= features@.len() <= u32::MAX,
            forall|k: int| 0 <= k < features@.len() ==> (#[trigger] features@[k]).type_children@.len() <= u32::MAX,
            boxes@.map_values(|b: PropertyBox| box_view(b)) == grid(features@, i as int).boxes,
            boundary@.map_values(|k: usize| k as int) == grid(features@, i as int).boundary,
            x == grid(features@, i as int).x,
            y == grid(features@, i as int).y,
            BOX_FIRST_X <= x <= BOX_ROW_END_X,
            y <= BOX_FIRST_Y + i * 0x20_0000_0000,
            forall|k: int| 0 <= k < boxes@.len() ==> ports_placed(#[trigger] boxes@[k]),
        decreases features.len() - i,
    {
        let f = &features[i];
        if is_structural(f.kind) {
            let ports = box_ports(&f.type_children);
            proof {
                lemma_box_height_bound(ports@.len() as int);
            }
            let rows: u128 = (ports.len() as u128 + 1) / 2;
            let raw: u128 = BOX_HEADER + rows * PORT_ROW_HEIGHT;
            let height: u128 = if raw < BOX_MIN_HEIGHT { BOX_MIN_HEIGHT } else { raw };
            let b = PropertyBox { feature: i, x, y, height, ports };
            assert(ports_placed(b));
            let ghost before = boxes@;
            boxes.push(b);
            assert(boxes@.map_values(|b: PropertyBox| box_view(b)) =~= before.map_values(|b: PropertyBox| box_view(b)).push(
                box_view(b)));
            if x + BOX_STEP_X > BOX_ROW_END_X {
                x = BOX_FIRST_X;
                y = y + height + BOX_ROW_GAP;
            } else {
                x = x + BOX_STEP_X;
            }
        } else if is_port(f.kind) {
            let ghost before = boundary@;
            boundary.push(i);
            assert(boundary@.map_values(|k: usize| k as int) =~= before.map_values(|k: usize| k as int).push(i as int));
        }
        i = i + 1;
    }
    (boxes, boundary)
}

fn path_is_one(path: &Vec<ElementId>, id: ElementId) -> (r: bool)
    ensures
        r == (path@ == seq![id]),
{
    if path.len() == 1 && path[0] == id {
        assert(path@ =~= seq![id]);
        true
    } else {
        false
    }
}

fn find_boundary(features: &Vec<ContextFeature>, boundary: &Vec<usize>, port: ElementId) -> (r: Option<usize>)
    requires
        forall|k: int| 0 <= k < boundary@.len() ==> #[trigger] boundary@[k] < features@.len(),
    ensures
        opt_int(r) == first_boundary(features@, boundary@.map_values(|k: usize| k as int), port, 0),
{
    let ghost bs = boundary@.map_values(|k: usize| k as int);
    let mut k: usize = 0;
    while k < boundary.len()
        invariant
            k <= boundary@.len(),
            bs == boundary@.map_values(|k: usize| k as int),
            forall|q: int| 0 <= q < boundary@.len() ==> #[trigger] boundary@[q] < features@.len(),
            first_boundary(features@, bs, port, 0) == first_boundary(features@, bs, port, k as int),
        decreases boundary.len() - k,
    {
        if features[boundary[k]].id == port {
            return Some(k);
        }
        k = k + 1;
    }
    None
}

fn find_port(ports: &Vec<PortSlot>, port: ElementId) -> (r: Option<usize>)
    ensures
        opt_int(r) == first_port(ports@.map_values(|s: PortSlot| s.port), port, 0),
{
    let ghost ps = ports@.map_values(|s: PortSlot| s.port);
    let mut j: usize = 0;
    while j < ports.len()
        invariant
            j <= ports@.len(),
            ps == ports@.map_values(|s: PortSlot| s.port),
            first_port(ps, port, 0) == first_port(ps, port, j as int),
        decreases ports.len() - j,
    {
        if ports[j].port == port {
            return Some(j);
        }
        j = j + 1;
    }
    None
}

pub open spec fn boxes_view(boxes: Seq<PropertyBox>) -> Seq<BoxView> {
    boxes.map_values(|b: PropertyBox| box_view(b))
}

fn find_nested(features: &Vec<ContextFeature>, boxes: &Vec<PropertyBox>, port: ElementId, path: &Vec<ElementId>) -> (r: Option<(usize, usize)>)
    requires
        forall|i: int| 0 <= i < boxes@.len() ==> (#[trigger] boxes@[i]).feature < features@.len(),
    ensures
        opt_pair(r) == first_nested(features@, boxes_view(boxes@), port, path@, 0),
{
    let ghost bv = boxes_view(boxes@);
    let mut i: usize = 0;
    while i < boxes.len()
        invariant
            i <= boxes@.len(),
            bv == boxes_view(boxes@),
            forall|q: int| 0 <= q < boxes@.len() ==> (#[trigger] boxes@[q]).feature < features@.len(),
            first_nested(features@, bv, port, path@, 0) == first_nested(features@, bv, port, path@, i as int),
        decreases boxes.len() - i,
    {
        let b = &boxes[i];
        if path_is_one(path, features[b.feature].id) {
            match find_port(&b.ports, port) {
                Some(j) => {
                    return Some((i, j));
                },
                None => {},
            }
        }
        i = i + 1;
    }
    None
}

fn find_box(features: &Vec<ContextFeature>, boxes: &Vec<PropertyBox>, role: ElementId, path: &Vec<ElementId>) -> (r: Option<usize>)
    requires
        forall|i: int| 0 <= i < boxes@.len() ==> (#[trigger] boxes@[i]).feature < features@.len(),
    ensures
        opt_int(r) == first_box(features@, boxes_view(boxes@), role, path@, 0),
{
    let ghost bv = boxes_view(boxes@);
    let mut i: usize = 0;
    while i < boxes.len()
        invariant
            i <= boxes@.len(),
            bv == boxes_view(boxes@),
            forall|q: int| 0 <= q < boxes@.len() ==> (#[trigger] boxes@[q]).feature < features@.len(),
            first_box(features@, bv, role, path@, 0) == first_box(features@, bv, role, path@, i as int),
        decreases boxes.len() - i,
    {
        let id = features[boxes[i].feature].id;
        if id == role && path_is_one(path, id) {
            return Some(i);
        }
        i = i + 1;
    }
    None
}

fn find_end(
    features: &Vec<ContextFeature>,
    boxes: &Vec<PropertyBox>,
    boundary: &Vec<usize>,
    end: &ConnectorEndRecord,
    g: Ghost<GridView>,
) -> (r: Option<EndSlot>)
    requires
        g@.boxes == boxes_view(boxes@),
        g@.boundary == boundary@.map_values(|k: usize| k as int),
        forall|i: int| 0 <= i < boxes@.len() ==> (#[trigger] boxes@[i]).feature < features@.len(),
        forall|k: int| 0 <= k < boundary@.len() ==> #[trigger] boundary@[k] < features@.len(),
    ensures
        r == end_slot(features@, g@, *end),
{
    match end.port {
        Some(p) => {
            if end.property_path.len() == 0 {
                match find_boundary(features, boundary, p) {
                    Some(b) => Some(EndSlot::Boundary(b)),
                    None => None,
                }
            } else {
                match find_nested(features, boxes, p, &end.property_path) {
                    Some((i, j)) => Some(EndSlot::Port(i, j)),
                    None => None,
                }
            }
        },
        None => match find_box(features, boxes, end.role, &end.property_path) {
            Some(i) => Some(EndSlot::Property(i)),
            None => None,
        },
    }
}

proof fn lemma_grid_features(features: Seq<ContextFeature>, n: int)
    requires
        0 <= n <= features.len(),
    ensures
        forall|i: int| 0 <= i < grid(features, n).boxes.len() ==> 0 <= #[trigger] grid(features, n).boxes[i].feature < n,
        forall|k: int| 0 <= k < grid(features, n).boundary.len() ==> 0 <= #[trigger] grid(features, n).boundary[k] < n,
    decreases n,
{
    if n > 0 {
        lemma_grid_features(features, n - 1);
        let g0 = grid(features, n - 1);
        let g = grid(features, n);
        assert forall|i: int| 0 <= i < g.boxes.len() implies 0 <= #[trigger] g.boxes[i].feature < n by {
            if i < g0.boxes.len() {
                assert(g.boxes[i] == g0.boxes[i]);
            }
        }
        assert forall|k: int| 0 <= k < g.boundary.len() implies 0 <= #[trigger] g.boundary[k] < n by {
            if k < g0.boundary.len() {
                assert(g.boundary[k] == g0.boundary[k]);
            }
        }
    }
}

/// Populate a new IBD of the context `context` whose features are
/// `features` (in order, each with its type's children), given the
/// project's relationships `relationships`: the boxes and boundary ports
/// [`grid`] places, with ports placed alternately from the right, and an
/// edge for each connector of the context whose ends are both presented.
pub fn ibd_population(
    context: ElementId,
    features: &Vec<ContextFeature>,
    relationships: &Vec<ConnectorRecord>,
) -> (r: IbdPopulation)
    requires
        features@.len() <= u32::MAX,
        forall|i: int| 0 <= i < features@.len() ==> (#[trigger] features@[i]).type_children@.len() <= u32::MAX,
    ensures
        boxes_view(r.boxes@) == grid(features@, features@.len() as int).boxes,
        r.boundary_ports@.map_values(|k: usize| k as int) == grid(features@, features@.len() as int).boundary,
        forall|i: int| 0 <= i < r.boxes@.len() ==> ports_placed(#[trigger] r.boxes@[i]),
        r.connectors@.map_values(|c: ConnectorSlot| connector_view(c)) == connector_edges(features@, grid(
            features@, features@.len() as int), relationships@, context, relationships@.len() as int),
{
    let (boxes, boundary) = place_features(features);
    let ghost g = grid(features@, features@.len() as int);
    proof {
        lemma_grid_features(features@, features@.len() as int);
        assert forall|i: int| 0 <= i < boxes@.len() implies (#[trigger] boxes@[i]).feature < features@.len() by {
            assert(boxes_view(boxes@)[i] == box_view(boxes@[i]));
            assert(g.boxes[i].feature < features@.len());
        }
        assert forall|k: int| 0 <= k < boundary@.len() implies #[trigger] boundary@[k] < features@.len() by {
            assert(boundary@.map_values(|k: usize| k as int)[k] == boundary@[k] as int);
            assert(g.boundary[k] < features@.len());
        }
    }
    let mut connectors: Vec<ConnectorSlot> = Vec::new();
    let mut n: usize = 0;
    while n < relationships.len()
        invariant
            n <= relationships@.len(),
            g == grid(features@, features@.len() as int),
            g.boxes == boxes_view(boxes@),
            g.boundary == boundary@.map_values(|k: usize| k as int),
            forall|i: int| 0 <= i < boxes@.len() ==> (#[trigger] boxes@[i]).feature < features@.len(),
            forall|k: int| 0 <= k < boundary@.len() ==> #[trigger] boundary@[k] < features@.len(),
            connectors@.map_values(|c: ConnectorSlot| connector_view(c)) == connector_edges(features@, g,
                relationships@, context, n as int),
        decreases relationships.len() - n,
    {
        let r = &relationships[n];
        let on_context = match r.context {
            Some(c) => c == context,
            None => false,
        };
        if r.kind == RelationshipKind::Connector && on_context {
            let s = find_end(features, &boxes, &boundary, &r.source, Ghost(g));
            let t = find_end(features, &boxes, &boundary, &r.target, Ghost(g));
            match (s, t) {
                (Some(source), Some(target)) => {
                    let ghost before = connectors@;
                    let c = ConnectorSlot { relationship: n, source, target };
                    connectors.push(c);
                    assert(connectors@.map_values(|c: ConnectorSlot| connector_view(c)) =~= before.map_values(
                        |c: ConnectorSlot| connector_view(c)).push(connector_view(c)));
                },
                _ => {},
            }
        }
        n = n + 1;
    }
    IbdPopulation { boxes, boundary_ports: boundary, connectors }
}

} // verus!
