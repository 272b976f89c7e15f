use libtest2::distributed_list::DistributedList;

fn registry() -> DistributedList<usize> {
    let mut registry = DistributedList::root();
    registry.push(DistributedList::new(&1));
    registry.push(DistributedList::new(&2));
    registry.push(DistributedList::new(&3));
    registry
}

#[test]
fn check_elements() {
    let registry = registry();
    let mut elements = registry.iter().into_iter().copied().collect::<Vec<_>>();
    elements.sort();
    assert_eq!(elements, vec![1, 2, 3]);
}

#[test]
fn the_entry_pushed_last_comes_first() {
    let registry = registry();
    assert_eq!(registry.iter(), vec![&3, &2, &1]);
}

#[test]
fn an_empty_registry_has_no_entries() {
    let registry = DistributedList::<usize>::root();
    assert!(registry.iter().is_empty());
    let node = DistributedList::new(&7usize);
    assert_eq!(node.iter(), vec![&7]);
}

#[test]
fn only_the_entry_of_a_pushed_node_joins_the_list() {
    let mut chain = DistributedList::new(&1usize);
    chain.push(DistributedList::new(&2));
    let mut registry = DistributedList::root();
    registry.push(DistributedList::new(&0));
    registry.push(chain);
    assert_eq!(registry.iter(), vec![&1, &0]);
}

#[test]
fn every_entry_is_found_once_whatever_the_order_of_the_pushes() {
    static ENTRIES: [usize; 4] = [10, 20, 30, 20];
    for order in [[0, 1, 2, 3], [3, 2, 1, 0], [2, 0, 3, 1]] {
        let mut registry = DistributedList::root();
        for at in order {
            registry.push(DistributedList::new(&ENTRIES[at]));
        }
        let mut found = registry.iter().into_iter().copied().collect::<Vec<_>>();
        found.sort();
        assert_eq!(found, vec![10, 20, 20, 30]);
    }
}
