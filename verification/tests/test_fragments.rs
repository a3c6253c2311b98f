use osom_x64::assemblers::release::{NameTable, NO_NEXT};
use osom_x64::{Fragment, FragmentIterator, FragmentKind};

fn fragment(next_position: u32, buffer_length: u32, offset: u32) -> Fragment {
    Fragment { next_position, buffer_length, offset, kind: FragmentKind::Static }
}

#[test]
fn walk_follows_the_links() {
    let fragments = vec![fragment(2, 1, 0), fragment(NO_NEXT, 3, 3), fragment(1, 2, 1)];
    let mut walk = FragmentIterator::new(&fragments);
    let mut offsets = Vec::new();
    while let Some(fragment) = walk.next() {
        offsets.push(fragment.offset);
    }
    assert_eq!(offsets, vec![0, 1, 3]);
    assert_eq!(walk.next(), None);
}

#[test]
fn walk_ends_at_a_link_that_names_no_fragment() {
    let fragments = vec![fragment(7, 1, 0)];
    let mut walk = FragmentIterator::new(&fragments);
    assert_eq!(walk.next(), Some(&fragments[0]));
    assert_eq!(walk.next(), None);
    let nothing: Vec<Fragment> = Vec::new();
    let mut walk = FragmentIterator::new(&nothing);
    assert_eq!(walk.next(), None);
}

#[test]
fn names_keep_their_numbers() {
    let mut names = NameTable::new();
    assert_eq!(names.len(), 0);
    assert_eq!(names.lookup("a"), None);
    assert_eq!(names.intern("a"), 0);
    assert_eq!(names.intern("b"), 1);
    assert_eq!(names.intern("a"), 0);
    assert_eq!(names.intern("c"), 2);
    assert_eq!(names.len(), 3);
    assert_eq!(names.lookup("b"), Some(1));
    assert_eq!(names.lookup("d"), None);
    assert_eq!(names.name(2), "c");
}
