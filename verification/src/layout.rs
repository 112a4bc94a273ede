//! The render layout engine.
//!
//! A render-request tree (single image, grid of sub-trees, or empty
//! placeholder) becomes a layout tree of the same shape. A grid
//! normalizes its children to uniform cells: the cell width and height
//! are each the maximum of the children's sizes, independently per axis,
//! and the row count is the ceiling of the cell count over the column
//! count. Traversal yields each cell with the pixel offset it must be
//! drawn at, in row-major order.

use vstd::prelude::*;
use crate::query3d::{GeometryQuery, CameraQuery, LightQuery};

verus! {

/// A pixel size. Both dimensions are at least one in a well-formed
/// layout.
#[derive(Clone, Copy, Debug, PartialEq, Eq, Structural)]
pub struct Size {
    pub width: u32,
    pub height: u32,
}

impl Size {
    /// Both dimensions are at least one.
    pub open spec fn wf(&self) -> bool {
        self.width >= 1 && self.height >= 1
    }

    /// The smallest size: one pixel in each dimension.
    pub fn min_value() -> (r: Size)
        ensures
            r == (Size { width: 1u32, height: 1u32 }),
    {
        Size { width: 1, height: 1 }
    }

    /// The component-wise maximum of two sizes.
    pub fn max(self, other: Size) -> (r: Size)
        ensures
            r.width == if self.width >= other.width {
                self.width
            } else {
                other.width
            },
            r.height == if self.height >= other.height {
                self.height
            } else {
                other.height
            },
    {
        Size {
            width: if self.width >= other.width {
                self.width
            } else {
                other.width
            },
            height: if self.height >= other.height {
                self.height
            } else {
                other.height
            },
        }
    }
}

/// A single-image render request: the fixed output size and the queries
/// the rasterizer runs for it. Colors, outlines and other shading inputs
/// live with the rasterizer collaborator.
#[derive(Debug)]
pub struct Render {
    pub size: Size,
    pub geometry: GeometryQuery,
    pub camera: CameraQuery,
    pub lights: LightQuery,
}

/// How a group of render requests is arranged.
#[derive(Clone, Copy, Debug, PartialEq, Eq, Structural)]
pub enum LayoutType {
    Grid { cols: u32 },
}

/// A group of render request trees under one arrangement.
#[derive(Debug)]
pub struct RenderLayout {
    pub nodes: Vec<RenderNode>,
    pub layout: LayoutType,
}

/// A render-request tree: a single image, an arranged group of
/// sub-trees, or an empty placeholder occupying one cell.
#[derive(Debug)]
pub enum RenderNode {
    Render(Render),
    Layout(RenderLayout),
    Empty { size: Size },
}

/// A computed layout tree, isomorphic to the request tree it was built
/// from.
#[derive(Debug)]
pub enum LayoutNode {
    Render(Render),
    Grid(GridLayout),
    /// An empty slot, used to create a gap in the layout.
    Empty { size: Size },
}

/// A fully-computed grid layout: uniform cells sized to fit the largest
/// child in each axis, filled in row-major order.
#[derive(Debug)]
pub struct GridLayout {
    pub cells: Vec<LayoutNode>,
    pub cell_width: u32,
    pub cell_height: u32,
    pub rows: u32,
    pub cols: u32,
}

/// The offset in the composite image to draw at.
#[derive(Clone, Copy, Debug, PartialEq, Eq, Structural)]
pub struct LayoutOffset {
    pub x: u32,
    pub y: u32,
}

/// The number of rows a grid of `len` cells needs at `cols` columns:
/// the ceiling of `len / cols`.
pub open spec fn grid_rows(len: int, cols: int) -> int {
    (len - 1) / cols + 1
}

/// The width of a layout tree, by the recursive size algebra: a leaf or
/// placeholder has its fixed width; a grid is as wide as its widest
/// child times its column count.
pub open spec fn alg_width(n: LayoutNode) -> int
    decreases n,
{
    match n {
        LayoutNode::Render(r) => r.size.width as int,
        LayoutNode::Empty { size } => size.width as int,
        LayoutNode::Grid(g) => cells_max_width(g.cells@) * (g.cols as int),
    }
}

/// The height of a layout tree, by the recursive size algebra; a grid is
/// as tall as its tallest child times its row count.
pub open spec fn alg_height(n: LayoutNode) -> int
    decreases n,
{
    match n {
        LayoutNode::Render(r) => r.size.height as int,
        LayoutNode::Empty { size } => size.height as int,
        LayoutNode::Grid(g) => cells_max_height(g.cells@) * grid_rows(
            g.cells@.len() as int,
            g.cols as int,
        ),
    }
}

/// The widest width among `cells`, and at least one.
pub open spec fn cells_max_width(cells: Seq<LayoutNode>) -> int
    decreases cells,
{
    if cells.len() == 0 {
        1
    } else {
        let rest = cells_max_width(cells.drop_first());
        if alg_width(cells[0]) >= rest {
            alg_width(cells[0])
        } else {
            rest
        }
    }
}

/// The tallest height among `cells`, and at least one.
pub open spec fn cells_max_height(cells: Seq<LayoutNode>) -> int
    decreases cells,
{
    if cells.len() == 0 {
        1
    } else {
        let rest = cells_max_height(cells.drop_first());
        if alg_height(cells[0]) >= rest {
            alg_height(cells[0])
        } else {
            rest
        }
    }
}

/// Well-formedness of a grid layout: at least one cell, at least one
/// column, the stored row count and cell sizes equal to what the size
/// algebra computes from the children, the grid's total size within
/// pixel-coordinate range, and every child well formed.
pub open spec fn grid_wf(g: GridLayout) -> bool
    decreases g,
{
    &&& g.cells@.len() >= 1
    &&& g.cells@.len() <= u32::MAX
    &&& g.cols >= 1
    &&& g.rows == grid_rows(g.cells@.len() as int, g.cols as int)
    &&& g.cell_width == cells_max_width(g.cells@)
    &&& g.cell_height == cells_max_height(g.cells@)
    &&& g.cell_width * g.cols <= u32::MAX
    &&& g.cell_height * g.rows <= u32::MAX
    &&& forall|i: int| 0 <= i < g.cells@.len() ==> node_wf(#[trigger] g.cells@[i])
}

/// Well-formedness of a layout tree.
pub open spec fn node_wf(n: LayoutNode) -> bool
    decreases n,
{
    match n {
        LayoutNode::Render(r) => r.size.wf(),
        LayoutNode::Empty { size } => size.wf(),
        LayoutNode::Grid(g) => grid_wf(g),
    }
}

/// The widest width of two adjacent runs of cells is the maximum of
/// each run's widest width.
pub proof fn lemma_cells_max_width_append(a: Seq<LayoutNode>, b: Seq<LayoutNode>)
    ensures
        cells_max_width(a + b) == if cells_max_width(a) >= cells_max_width(b) {
            cells_max_width(a)
        } else {
            cells_max_width(b)
        },
        cells_max_width(a) >= 1,
    decreases a,
{
    if a.len() == 0 {
        assert(a + b =~= b);
        lemma_cells_max_width_pos(b);
    } else {
        assert((a + b).drop_first() =~= a.drop_first() + b);
        assert((a + b)[0] == a[0]);
        lemma_cells_max_width_append(a.drop_first(), b);
    }
}

/// Every run of cells has a widest width of at least one.
pub proof fn lemma_cells_max_width_pos(s: Seq<LayoutNode>)
    ensures
        cells_max_width(s) >= 1,
    decreases s,
{
    if s.len() > 0 {
        lemma_cells_max_width_pos(s.drop_first());
    }
}

/// The tallest height of two adjacent runs of cells is the maximum of
/// each run's tallest height.
pub proof fn lemma_cells_max_height_append(a: Seq<LayoutNode>, b: Seq<LayoutNode>)
    ensures
        cells_max_height(a + b) == if cells_max_height(a) >= cells_max_height(b) {
            cells_max_height(a)
        } else {
            cells_max_height(b)
        },
        cells_max_height(a) >= 1,
    decreases a,
{
    if a.len() == 0 {
        assert(a + b =~= b);
        lemma_cells_max_height_pos(b);
    } else {
        assert((a + b).drop_first() =~= a.drop_first() + b);
        assert((a + b)[0] == a[0]);
        lemma_cells_max_height_append(a.drop_first(), b);
    }
}

/// Every run of cells has a tallest height of at least one.
pub proof fn lemma_cells_max_height_pos(s: Seq<LayoutNode>)
    ensures
        cells_max_height(s) >= 1,
    decreases s,
{
    if s.len() > 0 {
        lemma_cells_max_height_pos(s.drop_first());
    }
}

impl GridLayout {
    /// Computes a grid layout over `cells`: uniform cells sized to the
    /// largest child per axis, and as many rows as `cols` columns
    /// require. A zero-cell grid is a contract violation, rejected here
    /// rather than ever producing a zero-size layout; the remaining
    /// bounds keep every pixel coordinate of the resulting image within
    /// range.
    pub fn new(cells: Vec<LayoutNode>, cols: u32) -> (r: GridLayout)
        requires
            cells@.len() >= 1,
            cells@.len() <= u32::MAX,
            cols >= 1,
            forall|i: int| 0 <= i < cells@.len() ==> node_wf(#[trigger] cells@[i]),
            cells_max_width(cells@) * cols <= u32::MAX,
            cells_max_height(cells@) * grid_rows(cells@.len() as int, cols as int) <= u32::MAX,
        ensures
            grid_wf(r),
            r.cells == cells,
            r.cols == cols,
    {
        let mut cell_width: u32 = 1;
        let mut cell_height: u32 = 1;
        let count = cells.len();
        let mut i: usize = 0;
        proof {
            lemma_cells_max_width_pos(cells@);
            lemma_cells_max_height_pos(cells@);
            assert(cells_max_width(cells@.take(0)) == 1);
            assert(cells_max_height(cells@.take(0)) == 1);
        }
        while i < count
            invariant
                i <= count,
                count == cells@.len(),
                forall|k: int| 0 <= k < cells@.len() ==> node_wf(#[trigger] cells@[k]),
                cells_max_width(cells@) * cols <= u32::MAX,
                cells_max_height(cells@) * grid_rows(cells@.len() as int, cols as int)
                    <= u32::MAX,
                cols >= 1,
                cell_width == cells_max_width(cells@.take(i as int)),
                cell_height == cells_max_height(cells@.take(i as int)),
                cell_width <= cells_max_width(cells@),
                cell_height <= cells_max_height(cells@),
            decreases count - i,
        {
            let s = cells[i].size();
            cell_width = if cell_width >= s.width {
                cell_width
            } else {
                s.width
            };
            cell_height = if cell_height >= s.height {
                cell_height
            } else {
                s.height
            };
            proof {
                lemma_cells_max_width_append(cells@.take(i as int), seq![cells@[i as int]]);
                lemma_cells_max_height_append(cells@.take(i as int), seq![cells@[i as int]]);
                assert(cells@.take(i + 1) =~= cells@.take(i as int) + seq![cells@[i as int]]);
                assert(seq![cells@[i as int]].drop_first() =~= Seq::<LayoutNode>::empty());
                assert(cells_max_width(Seq::<LayoutNode>::empty()) == 1);
                assert(cells_max_height(Seq::<LayoutNode>::empty()) == 1);
                assert(cells_max_width(seq![cells@[i as int]]) == alg_width(cells@[i as int]));
                assert(cells_max_height(seq![cells@[i as int]]) == alg_height(cells@[i as int]));
                lemma_cells_max_width_append(cells@.take(i + 1), cells@.skip(i + 1));
                lemma_cells_max_height_append(cells@.take(i + 1), cells@.skip(i + 1));
                assert(cells@.take(i + 1) + cells@.skip(i + 1) =~= cells@);
            }
            i += 1;
        }
        proof {
            assert(cells@.take(count as int) =~= cells@);
        }
        let rows_minus_one = ((count - 1) as u32) / cols;
        let rows = rows_minus_one + 1;
        GridLayout { cells, cell_width, cell_height, rows, cols }
    }

    /// The total size of the image this layout generates: the cell size
    /// times the column and row counts, which equals the recursive size
    /// algebra of the whole grid.
    pub fn size(&self) -> (r: Size)
        requires
            grid_wf(*self),
        ensures
            r.width == self.cell_width * self.cols,
            r.height == self.cell_height * self.rows,
            r.width == alg_width(LayoutNode::Grid(*self)),
            r.height == alg_height(LayoutNode::Grid(*self)),
            r.wf(),
    {
        proof {
            lemma_cells_max_width_pos(self.cells@);
            lemma_cells_max_height_pos(self.cells@);
            assert(self.cell_width * self.cols >= 1 && self.cell_height * self.rows >= 1)
                by (nonlinear_arith)
                requires
                    self.cell_width >= 1,
                    self.cols >= 1,
                    self.cell_height >= 1,
                    self.rows >= 1,
            ;
        }
        Size { width: self.width(), height: self.height() }
    }

    /// The total width of the image this layout generates.
    pub fn width(&self) -> (r: u32)
        requires
            grid_wf(*self),
        ensures
            r == self.cell_width * self.cols,
    {
        self.cell_width * self.cols
    }

    /// The total height of the image this layout generates.
    pub fn height(&self) -> (r: u32)
        requires
            grid_wf(*self),
        ensures
            r == self.cell_height * self.rows,
    {
        self.cell_height * self.rows
    }
}

/// The width of a render-request tree, by the same size algebra as the
/// layout it will become.
pub open spec fn render_width(n: RenderNode) -> int
    decreases n,
{
    match n {
        RenderNode::Render(r) => r.size.width as int,
        RenderNode::Empty { size } => size.width as int,
        RenderNode::Layout(rl) => match rl.layout {
            LayoutType::Grid { cols } => rnodes_max_width(rl.nodes@) * (cols as int),
        },
    }
}

/// The height of a render-request tree, by the same size algebra as the
/// layout it will become.
pub open spec fn render_height(n: RenderNode) -> int
    decreases n,
{
    match n {
        RenderNode::Render(r) => r.size.height as int,
        RenderNode::Empty { size } => size.height as int,
        RenderNode::Layout(rl) => match rl.layout {
            LayoutType::Grid { cols } => rnodes_max_height(rl.nodes@) * grid_rows(
                rl.nodes@.len() as int,
                cols as int,
            ),
        },
    }
}

/// The widest width among request sub-trees, and at least one.
pub open spec fn rnodes_max_width(nodes: Seq<RenderNode>) -> int
    decreases nodes,
{
    if nodes.len() == 0 {
        1
    } else {
        let rest = rnodes_max_width(nodes.drop_first());
        if render_width(nodes[0]) >= rest {
            render_width(nodes[0])
        } else {
            rest
        }
    }
}

/// The tallest height among request sub-trees, and at least one.
pub open spec fn rnodes_max_height(nodes: Seq<RenderNode>) -> int
    decreases nodes,
{
    if nodes.len() == 0 {
        1
    } else {
        let rest = rnodes_max_height(nodes.drop_first());
        if render_height(nodes[0]) >= rest {
            render_height(nodes[0])
        } else {
            rest
        }
    }
}

/// Well-formedness of a render-request tree: sizes at least one pixel,
/// every grid non-empty with at least one column, and every grid's total
/// size within pixel-coordinate range.
pub open spec fn render_wf(n: RenderNode) -> bool
    decreases n,
{
    match n {
        RenderNode::Render(r) => r.size.wf(),
        RenderNode::Empty { size } => size.wf(),
        RenderNode::Layout(rl) => match rl.layout {
            LayoutType::Grid { cols } => {
                &&& rl.nodes@.len() >= 1
                &&& rl.nodes@.len() <= u32::MAX
                &&& cols >= 1
                &&& rnodes_max_width(rl.nodes@) * cols <= u32::MAX
                &&& rnodes_max_height(rl.nodes@) * grid_rows(rl.nodes@.len() as int, cols as int)
                    <= u32::MAX
                &&& forall|i: int| 0 <= i < rl.nodes@.len() ==> render_wf(#[trigger] rl.nodes@[i])
            },
        },
    }
}

/// Structural correspondence between a layout tree and the request tree
/// it was built from: leaves and placeholders carry the same payload,
/// and grids pair children positionally.
pub open spec fn corresponds(l: LayoutNode, r: RenderNode) -> bool
    decreases r,
{
    match r {
        RenderNode::Render(render) => l matches LayoutNode::Render(lr) && lr == render,
        RenderNode::Empty { size } => l matches LayoutNode::Empty { size: ls } && ls == size,
        RenderNode::Layout(rl) => match rl.layout {
            LayoutType::Grid { cols } => l matches LayoutNode::Grid(g) && g.cols == cols
                && g.cells@.len() == rl.nodes@.len() && forall|i: int|
                0 <= i < rl.nodes@.len() ==> corresponds(#[trigger] g.cells@[i], rl.nodes@[i]),
        },
    }
}

/// The nesting depth of a render-request tree.
pub open spec fn rnode_depth(n: RenderNode) -> nat
    decreases n,
{
    match n {
        RenderNode::Layout(rl) => 1 + rnodes_depth(rl.nodes@),
        _ => 0,
    }
}

/// The largest nesting depth among request sub-trees.
pub open spec fn rnodes_depth(nodes: Seq<RenderNode>) -> nat
    decreases nodes,
{
    if nodes.len() == 0 {
        0
    } else {
        let d0 = rnode_depth(nodes[0]);
        let rest = rnodes_depth(nodes.drop_first());
        if d0 >= rest {
            d0
        } else {
            rest
        }
    }
}

/// Each sub-tree of a run is at most as deep as the run.
pub proof fn lemma_rnodes_depth_bound(nodes: Seq<RenderNode>, i: int)
    requires
        0 <= i < nodes.len(),
    ensures
        rnode_depth(nodes[i]) <= rnodes_depth(nodes),
    decreases i,
{
    if i > 0 {
        lemma_rnodes_depth_bound(nodes.drop_first(), i - 1);
        assert(nodes.drop_first()[i - 1] == nodes[i]);
    }
}

/// Runs of cells and request sub-trees with equal sizes position by
/// position have equal maxima per axis.
pub proof fn lemma_max_sizes_pointwise(a: Seq<LayoutNode>, b: Seq<RenderNode>)
    requires
        a.len() == b.len(),
        forall|i: int|
            0 <= i < a.len() ==> alg_width(#[trigger] a[i]) == render_width(b[i]) && alg_height(
                a[i],
            ) == render_height(b[i]),
    ensures
        cells_max_width(a) == rnodes_max_width(b),
        cells_max_height(a) == rnodes_max_height(b),
    decreases a,
{
    if a.len() > 0 {
        assert forall|i: int|
            0 <= i < a.drop_first().len() implies alg_width(#[trigger] a.drop_first()[i])
            == render_width(b.drop_first()[i]) && alg_height(a.drop_first()[i]) == render_height(
            b.drop_first()[i],
        ) by {
            assert(a.drop_first()[i] == a[i + 1]);
            assert(b.drop_first()[i] == b[i + 1]);
        }
        lemma_max_sizes_pointwise(a.drop_first(), b.drop_first());
    }
}

impl LayoutNode {
    /// Builds the layout tree for a render-request tree: a single image
    /// stays a leaf, a placeholder keeps its size, and every grid is
    /// computed bottom-up from its children, so the result is isomorphic
    /// to the request and its size is exactly the size algebra of the
    /// request.
    pub fn from_node(node: RenderNode) -> (r: LayoutNode)
        requires
            render_wf(node),
        ensures
            corresponds(r, node),
            node_wf(r),
            alg_width(r) == render_width(node),
            alg_height(r) == render_height(node),
        decreases rnode_depth(node), 0int,
    {
        match node {
            RenderNode::Render(render) => LayoutNode::Render(render),
            RenderNode::Empty { size } => LayoutNode::Empty { size },
            RenderNode::Layout(rl) => {
                let RenderLayout { nodes, layout } = rl;
                match layout {
                    LayoutType::Grid { cols } => {
                        let cells = LayoutNode::from_nodes(nodes);
                        proof {
                            lemma_max_sizes_pointwise(cells@, rl.nodes@);
                        }
                        LayoutNode::Grid(GridLayout::new(cells, cols))
                    },
                }
            },
        }
    }

    /// Builds the layout tree of each request sub-tree in a run, in
    /// order.
    pub fn from_nodes(nodes: Vec<RenderNode>) -> (r: Vec<LayoutNode>)
        requires
            forall|i: int| 0 <= i < nodes@.len() ==> render_wf(#[trigger] nodes@[i]),
        ensures
            r@.len() == nodes@.len(),
            forall|i: int|
                0 <= i < nodes@.len() ==> corresponds(#[trigger] r@[i], nodes@[i]) && node_wf(
                    r@[i],
                ) && alg_width(r@[i]) == render_width(nodes@[i]) && alg_height(r@[i])
                    == render_height(nodes@[i]),
        decreases rnodes_depth(nodes@), nodes@.len() + 1,
    {
        let ghost all = nodes@;
        let mut rest_nodes = nodes;
        if rest_nodes.len() == 0 {
            Vec::new()
        } else {
            let child = rest_nodes.remove(0);
            proof {
                assert(child == all[0]);
                assert(rest_nodes@ =~= all.drop_first());
                lemma_rnodes_depth_bound(all, 0);
            }
            let cell = LayoutNode::from_node(child);
            let mut rest = LayoutNode::from_nodes(rest_nodes);
            rest.insert(0, cell);
            proof {
                assert forall|i: int|
                    0 <= i < all.len() implies corresponds(#[trigger] rest@[i], all[i]) && node_wf(
                    rest@[i],
                ) && alg_width(rest@[i]) == render_width(all[i]) && alg_height(rest@[i])
                    == render_height(all[i]) by {
                    if i > 0 {
                        assert(rest@[i] == rest@.subrange(1, rest@.len() as int)[i - 1]);
                        assert(all[i] == all.drop_first()[i - 1]);
                    }
                }
            }
            rest
        }
    }

    /// The size of this layout tree: exactly what the recursive size
    /// algebra computes bottom-up, whether read from a leaf or from a
    /// grid's stored cell size.
    pub fn size(&self) -> (r: Size)
        requires
            node_wf(*self),
        ensures
            r.width == alg_width(*self),
            r.height == alg_height(*self),
            r.wf(),
    {
        match self {
            LayoutNode::Render(render) => render.size,
            LayoutNode::Grid(grid) => grid.size(),
            LayoutNode::Empty { size } => *size,
        }
    }

    /// Starts the traversal of this layout tree: the sequence of
    /// (offset, node) pairs the iterator will yield, one per cell in
    /// row-major order, or a single pair at the origin for a bare leaf
    /// or placeholder.
    pub fn iter_targets(self) -> (it: LayoutTargetIter)
        requires
            node_wf(self),
        ensures
            iter_wf(it),
            iter_yields(it) == node_targets(self),
    {
        proof {
            match &self {
                LayoutNode::Grid(g) => {
                    lemma_cells_max_width_pos(g.cells@);
                    lemma_cells_max_height_pos(g.cells@);
                    lemma_grid_rows_cover(g.cells@.len() as int, g.cols as int);
                },
                _ => {},
            }
        }
        LayoutTargetIter { node: Some(self), current: 0 }
    }
}

/// The pixel offset of the cell at position `pos` of a grid with the
/// given cell size and column count: row-major, so the column is `pos`
/// modulo the column count and the row is `pos` over it.
pub open spec fn cell_offset(cell_width: u32, cell_height: u32, cols: u32, pos: int) -> LayoutOffset {
    LayoutOffset {
        x: ((pos % (cols as int)) * cell_width) as u32,
        y: ((pos / (cols as int)) * cell_height) as u32,
    }
}

/// The pairs a grid traversal starting at position `current` will
/// yield: each remaining cell with its row-major offset.
pub open spec fn grid_yields(g: GridLayout, current: u32) -> Seq<(LayoutOffset, LayoutNode)> {
    Seq::new(
        g.cells@.len(),
        |i: int| (cell_offset(g.cell_width, g.cell_height, g.cols, current + i), g.cells@[i]),
    )
}

/// The pairs an iterator has left to yield.
pub closed spec fn iter_yields(it: LayoutTargetIter) -> Seq<(LayoutOffset, LayoutNode)> {
    match it.node {
        None => Seq::empty(),
        Some(n) => match n {
            LayoutNode::Grid(g) => grid_yields(g, it.current),
            _ => seq![(LayoutOffset { x: 0, y: 0 }, n)],
        },
    }
}

/// The pairs a fresh traversal of a layout tree yields: one per grid
/// cell in row-major order, or one pair at the origin for a bare leaf or
/// placeholder.
pub open spec fn node_targets(n: LayoutNode) -> Seq<(LayoutOffset, LayoutNode)> {
    match n {
        LayoutNode::Grid(g) => grid_yields(g, 0),
        _ => seq![(LayoutOffset { x: 0, y: 0 }, n)],
    }
}

/// A mid-traversal grid is coherent: every remaining position fits the
/// grid, every offset fits pixel coordinates, and the position counter
/// cannot overflow.
pub open spec fn iter_grid_wf(g: GridLayout, current: u32) -> bool {
    &&& g.cols >= 1
    &&& g.cell_width >= 1
    &&& g.cell_height >= 1
    &&& current + g.cells@.len() <= g.rows * g.cols
    &&& current + g.cells@.len() <= u32::MAX
    &&& g.cell_width * g.cols <= u32::MAX
    &&& g.cell_height * g.rows <= u32::MAX
    &&& forall|i: int| 0 <= i < g.cells@.len() ==> node_wf(#[trigger] g.cells@[i])
}

/// A traversal state is coherent: exhausted, at a single leaf or
/// placeholder, or mid-grid with a coherent grid.
pub closed spec fn iter_wf(it: LayoutTargetIter) -> bool {
    match it.node {
        None => true,
        Some(n) => match n {
            LayoutNode::Grid(g) => iter_grid_wf(g, it.current),
            _ => node_wf(n),
        },
    }
}

/// A grid's rows cover its cells: `len` cells fit in `ceil(len / cols)`
/// rows of `cols` cells.
pub proof fn lemma_grid_rows_cover(len: int, cols: int)
    requires
        len >= 1,
        cols >= 1,
    ensures
        len <= grid_rows(len, cols) * cols,
{
    let q = (len - 1) / cols;
    let r = (len - 1) % cols;
    vstd::arithmetic::div_mod::lemma_fundamental_div_mod(len - 1, cols);
    vstd::arithmetic::div_mod::lemma_mod_bound(len - 1, cols);
    assert(grid_rows(len, cols) * cols == (q + 1) * cols);
    assert((q + 1) * cols == q * cols + cols) by (nonlinear_arith);
}

/// The composition of a sub-traversal origin with an offset inside it.
pub open spec fn offset_shift(origin: LayoutOffset, o: LayoutOffset) -> LayoutOffset {
    LayoutOffset { x: (origin.x + o.x) as u32, y: (origin.y + o.y) as u32 }
}

/// The fully flattened traversal of a layout tree: every leaf and
/// placeholder it contains, each with the absolute offset of its target
/// rectangle. Nested grids compose additively: a cell's subtree is
/// flattened with that cell's offset as its origin.
pub open spec fn flat_targets(n: LayoutNode, origin: LayoutOffset) -> Seq<
    (LayoutOffset, LayoutNode),
>
    decreases n,
{
    match n {
        LayoutNode::Grid(g) => flat_cells(
            g.cells@,
            g.cell_width,
            g.cell_height,
            g.cols,
            origin,
            0,
        ),
        _ => seq![(origin, n)],
    }
}

/// The flattened traversal of a run of grid cells starting at position
/// `pos`, relative to `origin`.
pub open spec fn flat_cells(
    cells: Seq<LayoutNode>,
    cell_width: u32,
    cell_height: u32,
    cols: u32,
    origin: LayoutOffset,
    pos: int,
) -> Seq<(LayoutOffset, LayoutNode)>
    decreases cells,
{
    if cells.len() == 0 {
        Seq::empty()
    } else {
        flat_targets(
            cells[0],
            offset_shift(origin, cell_offset(cell_width, cell_height, cols, pos)),
        ) + flat_cells(cells.drop_first(), cell_width, cell_height, cols, origin, pos + 1)
    }
}

/// The nesting depth of a layout tree.
pub open spec fn lnode_depth(n: LayoutNode) -> nat
    decreases n,
{
    match n {
        LayoutNode::Grid(g) => 1 + lcells_depth(g.cells@),
        _ => 0,
    }
}

/// The largest nesting depth among a run of cells.
pub open spec fn lcells_depth(cells: Seq<LayoutNode>) -> nat
    decreases cells,
{
    if cells.len() == 0 {
        0
    } else {
        let d0 = lnode_depth(cells[0]);
        let rest = lcells_depth(cells.drop_first());
        if d0 >= rest {
            d0
        } else {
            rest
        }
    }
}

/// Each cell of a run is at most as deep as the run.
pub proof fn lemma_lcells_depth_bound(cells: Seq<LayoutNode>, i: int)
    requires
        0 <= i < cells.len(),
    ensures
        lnode_depth(cells[i]) <= lcells_depth(cells),
    decreases i,
{
    if i > 0 {
        lemma_lcells_depth_bound(cells.drop_first(), i - 1);
        assert(cells.drop_first()[i - 1] == cells[i]);
    }
}

/// No cell is larger than the per-axis maximum of its run.
pub proof fn lemma_cells_max_bounds(cells: Seq<LayoutNode>, i: int)
    requires
        0 <= i < cells.len(),
    ensures
        alg_width(cells[i]) <= cells_max_width(cells),
        alg_height(cells[i]) <= cells_max_height(cells),
    decreases i,
{
    if i > 0 {
        lemma_cells_max_bounds(cells.drop_first(), i - 1);
        assert(cells.drop_first()[i - 1] == cells[i]);
    }
}

impl LayoutNode {
    /// Flattens this layout tree into the full, order-preserving
    /// sequence of (absolute offset, leaf) pairs a compositor blits:
    /// grid cells in row-major order, nested grids composed additively
    /// against their cell's origin. Placeholders appear in the sequence
    /// too; a compositor that renders only images skips them.
    pub fn flatten(self) -> (r: Vec<(LayoutOffset, LayoutNode)>)
        requires
            node_wf(self),
        ensures
            r@ == flat_targets(self, LayoutOffset { x: 0, y: 0 }),
    {
        proof {
            match &self {
                LayoutNode::Grid(g) => {
                    lemma_cells_max_width_pos(g.cells@);
                    lemma_cells_max_height_pos(g.cells@);
                },
                _ => {},
            }
        }
        self.flatten_at(LayoutOffset { x: 0, y: 0 })
    }

    /// Flattens this layout tree against a sub-traversal origin.
    fn flatten_at(self, origin: LayoutOffset) -> (r: Vec<(LayoutOffset, LayoutNode)>)
        requires
            node_wf(self),
            origin.x + alg_width(self) <= u32::MAX,
            origin.y + alg_height(self) <= u32::MAX,
        ensures
            r@ == flat_targets(self, origin),
        decreases lnode_depth(self), 0int,
    {
        match self {
            LayoutNode::Grid(g) => {
                proof {
                    lemma_cells_max_width_pos(g.cells@);
                    lemma_cells_max_height_pos(g.cells@);
                    assert forall|i: int| 0 <= i < g.cells@.len() implies alg_width(
                        #[trigger] g.cells@[i],
                    ) <= g.cell_width && alg_height(g.cells@[i]) <= g.cell_height by {
                        lemma_cells_max_bounds(g.cells@, i);
                    }
                }
                let GridLayout { cells, cell_width, cell_height, rows, cols } = g;
                LayoutNode::flatten_cells(cells, cell_width, cell_height, cols, origin, 0)
            },
            other => {
                let mut r: Vec<(LayoutOffset, LayoutNode)> = Vec::new();
                r.push((origin, other));
                proof {
                    assert(r@ =~= flat_targets(r@[0].1, origin));
                }
                r
            },
        }
    }

    /// Flattens a run of grid cells starting at position `pos`.
    fn flatten_cells(
        cells: Vec<LayoutNode>,
        cell_width: u32,
        cell_height: u32,
        cols: u32,
        origin: LayoutOffset,
        pos: u32,
    ) -> (r: Vec<(LayoutOffset, LayoutNode)>)
        requires
            cols >= 1,
            cell_width >= 1,
            cell_height >= 1,
            pos + cells@.len() <= u32::MAX,
            origin.x + cell_width * (cols as int) <= u32::MAX,
            cells@.len() > 0 ==> origin.y + cell_height * grid_rows(pos + cells@.len(), cols as int)
                <= u32::MAX,
            forall|i: int| 0 <= i < cells@.len() ==> node_wf(#[trigger] cells@[i]),
            forall|i: int| 0 <= i < cells@.len() ==> alg_width(#[trigger] cells@[i]) <= cell_width
                && alg_height(cells@[i]) <= cell_height,
        ensures
            r@ == flat_cells(cells@, cell_width, cell_height, cols, origin, pos as int),
        decreases lcells_depth(cells@), cells@.len(),
    {
        let ghost all = cells@;
        let mut rest_cells = cells;
        if rest_cells.len() == 0 {
            Vec::new()
        } else {
            let child = rest_cells.remove(0);
            proof {
                assert(child == all[0]);
                assert(rest_cells@ =~= all.drop_first());
                lemma_lcells_depth_bound(all, 0);
            }
            let col = pos % cols;
            let row = pos / cols;
            proof {
                assert((pos as int) % (cols as int) <= cols - 1);
                assert(col * cell_width <= (cols - 1) * cell_width) by (nonlinear_arith)
                    requires
                        col == (pos as int) % (cols as int),
                        col <= cols - 1,
                        cell_width >= 1,
                ;
                assert((cols - 1) * cell_width == cell_width * (cols as int) - cell_width)
                    by (nonlinear_arith);
                let last_row = (pos + all.len() - 1) / (cols as int);
                vstd::arithmetic::div_mod::lemma_div_is_ordered(
                    pos as int,
                    pos + all.len() - 1,
                    cols as int,
                );
                assert(row <= last_row);
                assert(row * cell_height <= last_row * cell_height) by (nonlinear_arith)
                    requires
                        0 <= row <= last_row,
                        cell_height >= 1,
                ;
                assert(cell_height * (last_row + 1) == last_row * cell_height + cell_height)
                    by (nonlinear_arith);
                assert(grid_rows(pos + all.len(), cols as int) == last_row + 1);
                assert(origin.y + row * cell_height + cell_height <= u32::MAX);
            }
            let child_origin = LayoutOffset {
                x: origin.x + col * cell_width,
                y: origin.y + row * cell_height,
            };
            let mut head = child.flatten_at(child_origin);
            let mut rest = LayoutNode::flatten_cells(
                rest_cells,
                cell_width,
                cell_height,
                cols,
                origin,
                pos + 1,
            );
            head.append(&mut rest);
            proof {
                assert(head@ =~= flat_cells(
                    all,
                    cell_width,
                    cell_height,
                    cols,
                    origin,
                    pos as int,
                ));
            }
            head
        }
    }
}

/// Iterator over layout nodes and the target offsets they should be
/// drawn at: yields each cell of a grid with its row-major offset, in
/// order, consuming the layout; restart by rebuilding the tree.
pub struct LayoutTargetIter {
    node: Option<LayoutNode>,
    current: u32,
}

impl LayoutTargetIter {
    /// Yields the next (offset, node) pair, or nothing when the
    /// traversal is exhausted: exactly the head of the remaining yield
    /// sequence, leaving the rest.
    pub fn next(&mut self) -> (r: Option<(LayoutOffset, LayoutNode)>)
        requires
            iter_wf(*old(self)),
        ensures
            iter_wf(*final(self)),
            match r {
                None => iter_yields(*old(self)).len() == 0 && iter_yields(*final(self)).len()
                    == 0,
                Some(p) => iter_yields(*old(self)).len() > 0 && p == iter_yields(*old(self))[0]
                    && iter_yields(*final(self)) == iter_yields(*old(self)).drop_first(),
            },
    {
        match self.node.take() {
            None => None,
            Some(node) => {
                match node {
                    LayoutNode::Grid(grid) => {
                        let GridLayout { mut cells, cell_width, cell_height, rows, cols } = grid;
                        if cells.len() == 0 {
                            return None;
                        }
                        let current = self.current;
                        let row = current / cols;
                        let col = current % cols;
                        proof {
                            assert((current as int) % (cols as int) <= cols - 1);
                            assert(col * cell_width <= (cols - 1) * cell_width) by (nonlinear_arith)
                                requires
                                    col == (current as int) % (cols as int),
                                    col <= cols - 1,
                                    cell_width >= 1,
                            ;
                            assert((cols - 1) * cell_width == cols * cell_width - cell_width)
                                by (nonlinear_arith);
                            assert((current as int) / (cols as int) <= rows - 1) by (nonlinear_arith)
                                requires
                                    cols >= 1,
                                    current as int <= rows * cols - 1,
                                    row == (current as int) / (cols as int),
                            ;
                            assert(row * cell_height <= (rows - 1) * cell_height)
                                by (nonlinear_arith)
                                requires
                                    row == (current as int) / (cols as int),
                                    row <= rows - 1,
                                    cell_height >= 1,
                            ;
                            assert((rows - 1) * cell_height == rows * cell_height - cell_height)
                                by (nonlinear_arith);
                        }
                        let target = LayoutOffset { x: col * cell_width, y: row * cell_height };
                        self.current = current + 1;
                        let node = cells.remove(0);
                        let ghost old_cells = grid.cells@;
                        self.node = Some(
                            LayoutNode::Grid(
                                GridLayout { cells, cell_width, cell_height, rows, cols },
                            ),
                        );
                        proof {
                            assert(iter_yields(*self) =~= iter_yields(*old(self)).drop_first());
                        }
                        Some((target, node))
                    },
                    _ => {
                        // A bare leaf or placeholder is drawn once, from the
                        // corner, over its entire image.
                        let target = LayoutOffset { x: 0, y: 0 };
                        proof {
                            assert(iter_yields(*self) =~= Seq::<(
                                LayoutOffset,
                                LayoutNode,
                            )>::empty());
                        }
                        Some((target, node))
                    },
                }
            },
        }
    }
}

} // verus!
