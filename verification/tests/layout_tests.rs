use spritec::layout::{
    GridLayout, LayoutNode, LayoutOffset, LayoutType, RenderLayout, RenderNode, Size,
};

fn empty_node(width: u32, height: u32) -> RenderNode {
    RenderNode::Empty { size: Size { width, height } }
}

fn grid(nodes: Vec<RenderNode>, cols: u32) -> RenderNode {
    RenderNode::Layout(RenderLayout { nodes, layout: LayoutType::Grid { cols } })
}

#[test]
fn grid_of_three_equal_children_has_two_rows() {
    let tree = grid(vec![empty_node(10, 10), empty_node(10, 10), empty_node(10, 10)], 2);
    let layout = LayoutNode::from_node(tree);
    match &layout {
        LayoutNode::Grid(g) => {
            assert_eq!(g.rows, 2);
            assert_eq!(g.cols, 2);
            assert_eq!(g.cell_width, 10);
            assert_eq!(g.cell_height, 10);
        }
        _ => panic!("expected a grid layout"),
    }
    let size = layout.size();
    assert_eq!(size, Size { width: 20, height: 20 });
}

#[test]
fn grid_of_three_equal_children_yields_row_major_offsets() {
    let tree = grid(vec![empty_node(10, 10), empty_node(10, 10), empty_node(10, 10)], 2);
    let layout = LayoutNode::from_node(tree);
    let mut it = layout.iter_targets();

    let (o1, _) = it.next().unwrap();
    let (o2, _) = it.next().unwrap();
    let (o3, _) = it.next().unwrap();
    assert_eq!(o1, LayoutOffset { x: 0, y: 0 });
    assert_eq!(o2, LayoutOffset { x: 10, y: 0 });
    assert_eq!(o3, LayoutOffset { x: 0, y: 10 });
    assert!(it.next().is_none());
}

#[test]
fn grid_cell_size_is_max_per_axis() {
    let tree = grid(vec![empty_node(10, 10), empty_node(20, 5)], 2);
    let layout = LayoutNode::from_node(tree);
    match &layout {
        LayoutNode::Grid(g) => {
            assert_eq!(g.cell_width, 20);
            assert_eq!(g.cell_height, 10);
            assert_eq!(g.rows, 1);
        }
        _ => panic!("expected a grid layout"),
    }
    let size = layout.size();
    assert_eq!(size, Size { width: 40, height: 10 });
}

#[test]
fn nested_grid_sizes_compose() {
    // Inner grid: two 10x10 cells in one column -> 10 x 20.
    let inner = grid(vec![empty_node(10, 10), empty_node(10, 10)], 1);
    // Outer grid: the inner grid next to a small placeholder, two columns.
    let outer = grid(vec![inner, empty_node(5, 5)], 2);
    let layout = LayoutNode::from_node(outer);
    match &layout {
        LayoutNode::Grid(g) => {
            assert_eq!(g.cell_width, 10);
            assert_eq!(g.cell_height, 20);
            assert_eq!(g.rows, 1);
        }
        _ => panic!("expected a grid layout"),
    }
    assert_eq!(layout.size(), Size { width: 20, height: 20 });
}

#[test]
fn nested_grid_traversal_yields_subtree_at_cell_offset() {
    let inner = grid(vec![empty_node(10, 10), empty_node(10, 10)], 1);
    let outer = grid(vec![empty_node(10, 20), inner], 2);
    let layout = LayoutNode::from_node(outer);
    let mut it = layout.iter_targets();

    let (o1, first) = it.next().unwrap();
    assert_eq!(o1, LayoutOffset { x: 0, y: 0 });
    assert!(matches!(first, LayoutNode::Empty { .. }));

    // The nested grid occupies the second cell; its own cells are then
    // flattened relative to this offset as the sub-traversal origin.
    let (o2, second) = it.next().unwrap();
    assert_eq!(o2, LayoutOffset { x: 10, y: 0 });
    match second {
        LayoutNode::Grid(_) => {
            let mut inner_it = second.iter_targets();
            let (i1, _) = inner_it.next().unwrap();
            let (i2, _) = inner_it.next().unwrap();
            assert_eq!(i1, LayoutOffset { x: 0, y: 0 });
            assert_eq!(i2, LayoutOffset { x: 0, y: 10 });
            assert!(inner_it.next().is_none());
        }
        _ => panic!("expected the nested grid in the second cell"),
    }
    assert!(it.next().is_none());
}

#[test]
fn bare_leaf_traversal_yields_origin_once() {
    let layout = LayoutNode::from_node(empty_node(7, 9));
    assert_eq!(layout.size(), Size { width: 7, height: 9 });
    let mut it = layout.iter_targets();
    let (o, node) = it.next().unwrap();
    assert_eq!(o, LayoutOffset { x: 0, y: 0 });
    assert!(matches!(node, LayoutNode::Empty { .. }));
    assert!(it.next().is_none());
}

#[test]
fn partial_last_row_only_existing_children_yield_offsets() {
    // Three columns, four children: the second row has one child only.
    let tree = grid(
        vec![empty_node(4, 4), empty_node(4, 4), empty_node(4, 4), empty_node(4, 4)],
        3,
    );
    let layout = LayoutNode::from_node(tree);
    assert_eq!(layout.size(), Size { width: 12, height: 8 });
    let mut it = layout.iter_targets();
    let mut offsets = Vec::new();
    while let Some((o, _)) = it.next() {
        offsets.push((o.x, o.y));
    }
    assert_eq!(offsets, vec![(0, 0), (4, 0), (8, 0), (0, 4)]);
}

#[test]
fn flatten_composes_nested_grid_offsets_additively() {
    // Outer grid, two columns: a 10x20 placeholder, then an inner
    // one-column grid of two 10x10 placeholders. The inner grid's cells
    // land at the inner origin (10, 0) plus their own offsets.
    let inner = grid(vec![empty_node(10, 10), empty_node(10, 10)], 1);
    let outer = grid(vec![empty_node(10, 20), inner], 2);
    let layout = LayoutNode::from_node(outer);
    let flat = layout.flatten();
    let offsets: Vec<(u32, u32)> = flat.iter().map(|(o, _)| (o.x, o.y)).collect();
    assert_eq!(offsets, vec![(0, 0), (10, 0), (10, 10)]);
    assert!(flat.iter().all(|(_, n)| matches!(n, LayoutNode::Empty { .. })));
}

#[test]
fn flatten_of_a_bare_leaf_is_one_pair_at_the_origin() {
    let layout = LayoutNode::from_node(empty_node(3, 3));
    let flat = layout.flatten();
    assert_eq!(flat.len(), 1);
    assert_eq!(flat[0].0, LayoutOffset { x: 0, y: 0 });
}

#[test]
fn grid_layout_new_computes_ceiling_rows() {
    let cells = vec![
        LayoutNode::Empty { size: Size { width: 3, height: 3 } },
        LayoutNode::Empty { size: Size { width: 3, height: 3 } },
        LayoutNode::Empty { size: Size { width: 3, height: 3 } },
        LayoutNode::Empty { size: Size { width: 3, height: 3 } },
        LayoutNode::Empty { size: Size { width: 3, height: 3 } },
    ];
    let g = GridLayout::new(cells, 2);
    assert_eq!(g.rows, 3);
    assert_eq!(g.size(), Size { width: 6, height: 9 });
    assert_eq!(g.width(), 6);
    assert_eq!(g.height(), 9);
}

#[test]
fn size_max_is_componentwise() {
    let a = Size { width: 10, height: 3 };
    let b = Size { width: 4, height: 8 };
    assert_eq!(a.max(b), Size { width: 10, height: 8 });
    assert_eq!(Size::min_value(), Size { width: 1, height: 1 });
}
