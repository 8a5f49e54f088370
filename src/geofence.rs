use vstd::prelude::*;

verus! {

/// A geographic position, latitude and longitude in units of 1e-7 degree.
#[derive(Clone, Copy, Debug, PartialEq, Eq)]
pub struct Point {
    pub latitude: i32,
    pub longitude: i32,
}

impl Point {
    pub fn new(latitude: i32, longitude: i32) -> (r: Point)
        ensures
            r.latitude == latitude,
            r.longitude == longitude,
    {
        Point { latitude, longitude }
    }
}

/// The line through one edge of a ring, as longitude in terms of latitude:
/// `longitude * run == latitude * rise + intercept`, with `run > 0`.
/// A horizontal edge is kept as the constant line `longitude == intercept`.
#[derive(Clone, Copy, Debug)]
pub struct EdgeLine {
    pub rise: i64,
    pub run: i64,
    pub intercept: i128,
}

/// The line of the edge from `a` (previous vertex) to `b`, with `run > 0`.
pub open spec fn edge_line(a: Point, b: Point) -> (int, int, int) {
    let d = a.latitude - b.latitude;
    if d == 0 {
        (0, 1, b.longitude as int)
    } else {
        let (rise, run) = if d > 0 {
            (a.longitude - b.longitude, d)
        } else {
            (b.longitude - a.longitude, -d)
        };
        (rise, run, b.longitude * run - b.latitude * rise)
    }
}

/// The edge from `a` to `b`, extended to a line, meets the parallel of `p`
/// strictly west of `p` (a horizontal edge: its longitude is west of `p`).
pub open spec fn crosses_west(a: Point, b: Point, p: Point) -> bool {
    let d = a.latitude - b.latitude;
    if d == 0 {
        b.longitude < p.longitude
    } else {
        let num = (p.latitude - b.latitude) * (a.longitude - b.longitude) + b.longitude * d;
        if d > 0 {
            num < p.longitude * d
        } else {
            num > p.longitude * d
        }
    }
}

/// One vertex lies strictly north of `p` and the other does not.
pub open spec fn straddles(a: Point, b: Point, p: Point) -> bool {
    (a.latitude > p.latitude) != (b.latitude > p.latitude)
}

/// The vertex before vertex `i` in the closed ring.
pub open spec fn prev_vertex(pts: Seq<Point>, i: int) -> Point {
    if i == 0 {
        pts[pts.len() - 1]
    } else {
        pts[i - 1]
    }
}

/// Parity of the edges among the first `k` whose crossing with the parallel
/// of `p` lies west of `p`.
pub open spec fn crossing_parity(pts: Seq<Point>, p: Point, k: int) -> bool
    decreases k,
{
    if k <= 0 {
        false
    } else {
        let a = prev_vertex(pts, k - 1);
        let b = pts[k - 1];
        crossing_parity(pts, p, k - 1) != (straddles(a, b, p) && crosses_west(a, b, p))
    }
}

/// Ray casting: `p` lies inside the ring when an odd number of edges cross
/// its parallel to the west of it. Vertices are compared strictly north of
/// `p` and crossings strictly west of it, so on a square a point on the south
/// or east edge counts as inside and one on the north or west edge as outside.
pub open spec fn inside(pts: Seq<Point>, p: Point) -> bool {
    crossing_parity(pts, p, pts.len() as int)
}

proof fn lemma_edge_line_test(a: Point, b: Point, p: Point)
    ensures
        ({
            let (rise, run, intercept) = edge_line(a, b);
            &&& run > 0
            &&& (p.latitude * rise + intercept < p.longitude * run) == crosses_west(a, b, p)
        }),
{
    let d = a.latitude - b.latitude;
    let y = p.latitude as int;
    let x = p.longitude as int;
    let dl = (a.longitude - b.longitude) as int;
    let bl = b.longitude as int;
    let bt = b.latitude as int;
    if d > 0 {
        assert(y * dl + (bl * d - bt * dl) == (y - bt) * dl + bl * d) by (nonlinear_arith);
    } else if d < 0 {
        assert(y * (-dl) + (bl * (-d) - bt * (-dl)) == -((y - bt) * dl + bl * d))
            by (nonlinear_arith);
        assert(x * (-d) == -(x * d)) by (nonlinear_arith);
    }
}

proof fn lemma_mul_bound(c: int, k: int)
    requires
        -0x8000_0000 <= c < 0x8000_0000,
        -0x1_0000_0000 <= k <= 0x1_0000_0000,
    ensures
        -0x1_0000_0000_0000_0000 <= c * k <= 0x1_0000_0000_0000_0000,
{
    assert(-0x1_0000_0000_0000_0000 <= c * k <= 0x1_0000_0000_0000_0000) by (nonlinear_arith)
        requires
            -0x8000_0000 <= c < 0x8000_0000,
            -0x1_0000_0000 <= k <= 0x1_0000_0000,
    ;
}

proof fn lemma_edge_line_bounds(a: Point, b: Point)
    ensures
        ({
            let (rise, run, intercept) = edge_line(a, b);
            &&& -0x1_0000_0000 <= rise <= 0x1_0000_0000
            &&& 0 < run <= 0x1_0000_0000
            &&& -0x2_0000_0000_0000_0000 <= intercept <= 0x2_0000_0000_0000_0000
        }),
{
    let (rise, run, intercept) = edge_line(a, b);
    if a.latitude != b.latitude {
        lemma_mul_bound(b.longitude as int, run);
        lemma_mul_bound(b.latitude as int, rise);
    }
}

/// Geofence polygon: a closed ring of vertices with the line of each edge.
pub struct Polygon {
    pub points: Vec<Point>,
    pub edges: Vec<EdgeLine>,
}

#[derive(Clone, Copy, Debug, PartialEq, Eq)]
pub enum PolygonError {
    /// A ring needs at least three vertices.
    TooFewVertices,
}

impl Polygon {
    /// At least three vertices, and each edge line belongs to its edge.
    pub open spec fn wf(&self) -> bool {
        &&& self.points.len() >= 3
        &&& self.edges.len() == self.points.len()
        &&& forall|i: int|
            0 <= i < self.points.len() ==> {
                let (rise, run, intercept) = #[trigger] edge_line(
                    prev_vertex(self.points@, i),
                    self.points@[i],
                );
                &&& self.edges@[i].rise == rise
                &&& self.edges@[i].run == run
                &&& self.edges@[i].intercept == intercept
            }
    }

    pub fn new(points: Vec<Point>) -> (r: Result<Polygon, PolygonError>)
        ensures
            points.len() < 3 <==> r is Err,
            r matches Ok(poly) ==> poly.wf() && poly.points@ == points@,
    {
        let n = points.len();
        if n < 3 {
            return Err(PolygonError::TooFewVertices);
        }
        let mut edges: Vec<EdgeLine> = Vec::with_capacity(n);
        let mut j: usize = n - 1;
        let mut i: usize = 0;
        while i < n
            invariant
                n == points.len(),
                n >= 3,
                i <= n,
                j == if i == 0 { n - 1 } else { i - 1 },
                edges.len() == i,
                forall|k: int|
                    0 <= k < i ==> {
                        let (rise, run, intercept) = #[trigger] edge_line(
                            prev_vertex(points@, k),
                            points@[k],
                        );
                        &&& edges@[k].rise == rise
                        &&& edges@[k].run == run
                        &&& edges@[k].intercept == intercept
                    },
            decreases n - i,
        {
            let a = points[j];
            let b = points[i];
            let d: i64 = a.latitude as i64 - b.latitude as i64;
            let e = if d == 0 {
                EdgeLine { rise: 0, run: 1, intercept: b.longitude as i128 }
            } else {
                let (rise, run) = if d > 0 {
                    (a.longitude as i64 - b.longitude as i64, d)
                } else {
                    (b.longitude as i64 - a.longitude as i64, -d)
                };
                assert(-0x1_0000_0000 <= rise <= 0x1_0000_0000);
                assert(0 < run <= 0x1_0000_0000);
                proof {
                    lemma_mul_bound(b.longitude as int, run as int);
                    lemma_mul_bound(b.latitude as int, rise as int);
                }
                let t1: i128 = b.longitude as i128 * run as i128;
                let t2: i128 = b.latitude as i128 * rise as i128;
                EdgeLine { rise, run, intercept: t1 - t2 }
            };
            assert(prev_vertex(points@, i as int) == a);
            edges.push(e);
            j = i;
            i = i + 1;
        }
        Ok(Polygon { points, edges })
    }

    /// Whether `point` lies inside this ring (see `inside` for the boundary).
    pub fn is_inside(&self, point: &Point) -> (r: bool)
        requires
            self.wf(),
        ensures
            r == inside(self.points@, *point),
    {
        let n = self.points.len();
        let mut odd_nodes = false;
        let mut current = self.points[n - 1].latitude > point.latitude;
        let mut i: usize = 0;
        while i < n
            invariant
                self.wf(),
                n == self.points.len(),
                i <= n,
                odd_nodes == crossing_parity(self.points@, *point, i as int),
                current == (prev_vertex(self.points@, i as int).latitude > point.latitude),
            decreases n - i,
        {
            let prv = current;
            current = self.points[i].latitude > point.latitude;
            let ghost a = prev_vertex(self.points@, i as int);
            let ghost b = self.points@[i as int];
            proof {
                lemma_edge_line_test(a, b, *point);
                lemma_edge_line_bounds(a, b);
            }
            if current != prv {
                let e = self.edges[i];
                proof {
                    lemma_mul_bound(point.latitude as int, e.rise as int);
                    lemma_mul_bound(point.longitude as int, e.run as int);
                }
                let lhs: i128 = point.latitude as i128 * e.rise as i128 + e.intercept;
                let rhs: i128 = point.longitude as i128 * e.run as i128;
                odd_nodes = odd_nodes != (lhs < rhs);
            }
            i = i + 1;
        }
        odd_nodes
    }
}

/// The ring `pts` started at vertex `k` instead of vertex 0.
pub open spec fn rotated(pts: Seq<Point>, k: int) -> Seq<Point> {
    pts.subrange(k, pts.len() as int) + pts.subrange(0, k)
}

/// Whether edge `i` (from the previous vertex to vertex `i`) crosses west of `p`.
pub open spec fn edge_counts(pts: Seq<Point>, p: Point, i: int) -> bool {
    straddles(prev_vertex(pts, i), pts[i], p) && crosses_west(prev_vertex(pts, i), pts[i], p)
}

proof fn lemma_rotate_one_prefix(pts: Seq<Point>, p: Point, k: int)
    requires
        pts.len() >= 2,
        0 <= k < pts.len(),
    ensures
        crossing_parity(rotated(pts, 1), p, k) == (crossing_parity(pts, p, k + 1) != edge_counts(
            pts,
            p,
            0,
        )),
    decreases k,
{
    let q = rotated(pts, 1);
    if k > 0 {
        lemma_rotate_one_prefix(pts, p, k - 1);
        assert(q[k - 1] == pts[k]);
        if k - 1 == 0 {
            assert(prev_vertex(q, 0) == q[q.len() - 1]);
            assert(q[q.len() - 1] == pts[0]);
        } else {
            assert(q[k - 2] == pts[k - 1]);
        }
        assert(edge_counts(q, p, k - 1) == edge_counts(pts, p, k));
        assert(crossing_parity(q, p, k) == (crossing_parity(q, p, k - 1) != edge_counts(
            q,
            p,
            k - 1,
        )));
        assert(crossing_parity(pts, p, k + 1) == (crossing_parity(pts, p, k) != edge_counts(
            pts,
            p,
            k,
        )));
    } else {
        assert(crossing_parity(q, p, 0) == false);
        assert(crossing_parity(pts, p, 1) == (crossing_parity(pts, p, 0) != edge_counts(
            pts,
            p,
            0,
        )));
    }
}

proof fn lemma_rotate_one(pts: Seq<Point>, p: Point)
    requires
        pts.len() >= 2,
    ensures
        inside(rotated(pts, 1), p) == inside(pts, p),
{
    let n = pts.len() as int;
    let q = rotated(pts, 1);
    assert(q.len() == n);
    lemma_rotate_one_prefix(pts, p, n - 1);
    assert(q[n - 1] == pts[0]);
    assert(q[n - 2] == pts[n - 1]);
    assert(edge_counts(q, p, n - 1) == edge_counts(pts, p, 0));
}

/// Starting the ring at another vertex changes no point's classification,
/// boundary points included.
pub proof fn lemma_inside_rotation_invariant(pts: Seq<Point>, p: Point, k: int)
    requires
        pts.len() >= 3,
        0 <= k <= pts.len(),
    ensures
        inside(rotated(pts, k), p) == inside(pts, p),
    decreases k,
{
    if k == 0 {
        assert(rotated(pts, 0) =~= pts);
    } else {
        lemma_inside_rotation_invariant(pts, p, k - 1);
        let r = rotated(pts, k - 1);
        assert(rotated(r, 1) =~= rotated(pts, k));
        lemma_rotate_one(r, p);
    }
}

} // verus!
