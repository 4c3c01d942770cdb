use binaries_ui::components::element::{Element, ElementType};
use binaries_ui::components::stacks::{hstack, stack, vstack};
use binaries_ui::components::{element, rectangle};
use binaries_ui::context::MemState;
use binaries_ui::layout::UILayouts;
use binaries_ui::math::{Vec2, Vec3};

#[test]
fn stacks_test_stack() {
    stack((element(), element()));
}

#[test]
fn three_rectangles_in_a_row() {
    let mut layouts = UILayouts::new().unwrap();
    let row = hstack((
        rectangle().size(Vec2::new(20, 10)),
        rectangle().size(Vec2::new(30, 10)),
        rectangle().size(Vec2::new(50, 10)),
    ))
    .push_to_layout(&mut layouts)
    .unwrap();
    layouts.update(&MemState::new(), Vec3::new(-400, 300, 0)).unwrap();
    let kids = layouts.children(row).unwrap();
    assert_eq!(kids.len(), 3);
    assert_eq!(layouts.layout(kids[0]).unwrap().location.x, 0);
    assert_eq!(layouts.layout(kids[1]).unwrap().location.x, 20);
    assert_eq!(layouts.layout(kids[2]).unwrap().location.x, 50);
    assert!(layouts.layout(row).unwrap().size.x >= 100);
}

#[test]
fn every_child_stands_once_and_in_order() {
    let mut layouts = UILayouts::new().unwrap();
    let a = element().title("a");
    let b = element().title("b");
    let c = element().title("c");
    let d = element().title("d");
    let e = element().title("e");
    let top = vstack((hstack((a, b)), c, hstack(vec![d, e])))
        .title("top")
        .push_to_layout(&mut layouts)
        .unwrap();
    let title = |node: u64| layouts.get(node).unwrap().attributes.tile.clone();
    assert_eq!(layouts.children(layouts.root()), Some(vec![top]));
    let kids = layouts.children(top).unwrap();
    assert_eq!(kids.iter().map(|n| title(*n)).collect::<Vec<_>>(), vec!["hstack", "c", "hstack"]);
    let first = layouts.children(kids[0]).unwrap();
    assert_eq!(first.iter().map(|n| title(*n)).collect::<Vec<_>>(), vec!["a", "b"]);
    assert_eq!(layouts.children(kids[1]), Some(vec![]));
    let last = layouts.children(kids[2]).unwrap();
    assert_eq!(last.iter().map(|n| title(*n)).collect::<Vec<_>>(), vec!["d", "e"]);
    let mut all = vec![layouts.root(), top];
    all.extend(kids.iter().chain(first.iter()).chain(last.iter()));
    let mut unique = all.clone();
    unique.sort();
    unique.dedup();
    assert_eq!(unique.len(), 9);
    assert_eq!(all.len(), 9);
}

#[test]
fn an_overlay_root_inside_a_stack_becomes_the_overlay_root() {
    let mut layouts = UILayouts::new().unwrap();
    let top = hstack((rectangle(), Element::new().element_type(ElementType::Debug)))
        .push_to_layout(&mut layouts)
        .unwrap();
    let kids = layouts.children(top).unwrap();
    assert_eq!(layouts.debug_root(), Some(kids[1]));
}

#[test]
fn a_stack_adds_one_node_for_each_widget_in_it() {
    let mut layouts = UILayouts::new().unwrap();
    layouts.push_element(element()).unwrap();
    let before = layouts.nodes();
    let root_kids = layouts.children(layouts.root()).unwrap();
    let top = vstack((hstack((element(), element())), element(), hstack(vec![element(), element()]), stack(())))
        .push_to_layout(&mut layouts)
        .unwrap();
    let after = layouts.nodes();
    assert_eq!(after.len(), before.len() + 1 + 8);
    assert_eq!(&after[..before.len()], &before[..]);
    let mut unique = after.clone();
    unique.sort();
    unique.dedup();
    assert_eq!(unique.len(), after.len());
    let mut grown = root_kids.clone();
    grown.push(top);
    assert_eq!(layouts.children(layouts.root()), Some(grown));
    assert_eq!(layouts.children(root_kids[0]), Some(vec![]));
    let alone = stack(()).push_to_layout(&mut layouts).unwrap();
    assert_eq!(layouts.nodes().len(), after.len() + 1);
    assert_eq!(layouts.children(alone), Some(vec![]));
}
