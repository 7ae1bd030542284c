use lifeform_list::address_index::AddressIndex;
use lifeform_list::room_index::RoomIndex;
use lifeform_list::{Address, LifeformComponent, LifeformList, LifeformType, Position};

fn addr(last: u32, port: u16) -> Address {
    Address::V4 { octets: 0x0a00_0000 + last, port }
}

fn at(x: u32, y: u32, z: u32) -> Position {
    Position { x, y, z }
}

fn lifeform(
    id: u64,
    kind: LifeformType,
    ip: Option<Address>,
    room: &str,
    position: Position,
) -> LifeformComponent {
    LifeformComponent { id, kind, ip, room: room.to_string(), position }
}

fn player(id: u64, ip: Address, room: &str) -> LifeformComponent {
    lifeform(id, LifeformType::Player, Some(ip), room, at(id as u32, 0, 0))
}

fn monster(id: u64, room: &str) -> LifeformComponent {
    lifeform(id, LifeformType::Monster, None, room, at(id as u32, 0, 0))
}

#[test]
fn new_registry_is_empty() {
    let registry = LifeformList::new();
    assert!(!registry.has_id(1));
    assert!(!registry.has_ip(addr(1, 4000)));
    assert_eq!(registry.ip_in_room(&"r1".to_string()), Vec::<Address>::new());
    assert_eq!(registry.in_room(&"r1".to_string(), LifeformType::Player), None);
    assert_eq!(registry.get_from_transform(at(0, 0, 0)), None);
    assert_eq!(registry.next_from(0), None);
}

#[test]
fn default_registry_is_empty() {
    let registry = LifeformList::default();
    assert!(!registry.has_id(0));
    assert_eq!(registry.next_from(0), None);
}

#[test]
fn players_and_monster_share_a_room() {
    let a = addr(1, 4000);
    let b = addr(2, 4000);
    let mut registry = LifeformList::new();
    registry.add(player(1, a, "r1"));
    registry.add(player(2, b, "r1"));
    registry.add(monster(3, "r1"));
    let room = "r1".to_string();
    assert_eq!(registry.ip_in_room(&room), vec![a, b]);
    assert_eq!(registry.in_room(&room, LifeformType::Player), Some(&vec![1, 2]));
    assert_eq!(registry.in_room(&room, LifeformType::Monster), Some(&vec![3]));
}

#[test]
fn ids_in_lobby_and_none_in_arena() {
    let mut registry = LifeformList::new();
    let p1 = player(11, addr(1, 1), "lobby");
    let p2 = player(12, addr(2, 1), "lobby");
    registry.add(p1.clone());
    registry.add(p2.clone());
    assert_eq!(
        registry.in_room(&"lobby".to_string(), LifeformType::Player),
        Some(&vec![p1.id, p2.id])
    );
    assert_eq!(registry.in_room(&"arena".to_string(), LifeformType::Monster), None);
    assert_eq!(registry.in_room(&"lobby".to_string(), LifeformType::Monster), None);
}

#[test]
fn other_kinds_are_in_no_room_list() {
    let mut registry = LifeformList::new();
    registry.add(lifeform(5, LifeformType::Other, Some(addr(5, 5)), "r1", at(1, 1, 1)));
    let room = "r1".to_string();
    assert_eq!(registry.in_room(&room, LifeformType::Other), None);
    assert_eq!(registry.in_room(&room, LifeformType::Player), None);
    assert_eq!(registry.in_room(&room, LifeformType::Monster), None);
    assert_eq!(registry.ip_in_room(&room), Vec::<Address>::new());
    assert_eq!(registry.get_from_id(5).map(|found| found.id), Some(5));
}

#[test]
fn add_then_get_gives_the_record_back() {
    let record = lifeform(42, LifeformType::Player, Some(addr(9, 9000)), "hall", at(7, 8, 9));
    let mut registry = LifeformList::new();
    registry.add(record.clone());
    assert_eq!(registry.get_from_id(42), Some(record.clone()));
    assert_eq!(registry.get_from_ip(addr(9, 9000)), Some(record));
}

#[test]
fn each_added_record_is_found_by_id_and_address() {
    let mut registry = LifeformList::new();
    let mut added = Vec::new();
    for n in 0..20u64 {
        let kind = if n % 3 == 0 { LifeformType::Monster } else { LifeformType::Player };
        let record = lifeform(100 + n, kind, Some(addr(n as u32, 7000)), "deck", at(n as u32, 1, 2));
        registry.add(record.clone());
        added.push(record);
    }
    for record in added {
        assert!(registry.has_id(record.id));
        assert_eq!(registry.get_from_id(record.id), Some(record.clone()));
        let ip = record.ip.unwrap();
        assert!(registry.has_ip(ip));
        assert_eq!(registry.get_from_ip(ip), Some(record));
    }
}

#[test]
fn addresses_differ_by_family_and_by_each_part() {
    let v4 = Address::V4 { octets: 1, port: 80 };
    let v6 = Address::V6 { segments: 1, port: 80, flowinfo: 0, scope_id: 0 };
    let v6_scoped = Address::V6 { segments: 1, port: 80, flowinfo: 0, scope_id: 3 };
    let mut registry = LifeformList::new();
    registry.add(player(1, v4, "r"));
    registry.add(player(2, v6, "r"));
    registry.add(player(3, v6_scoped, "r"));
    assert_eq!(registry.get_from_ip(v4).map(|found| found.id), Some(1));
    assert_eq!(registry.get_from_ip(v6).map(|found| found.id), Some(2));
    assert_eq!(registry.get_from_ip(v6_scoped).map(|found| found.id), Some(3));
    assert!(!registry.has_ip(Address::V4 { octets: 1, port: 81 }));
    assert!(!registry.has_ip(Address::V6 { segments: 1, port: 80, flowinfo: 1, scope_id: 0 }));
}

#[test]
fn removed_id_is_not_found() {
    let mut registry = LifeformList::new();
    registry.add(player(1, addr(1, 1), "r1"));
    registry.add(player(2, addr(2, 1), "r1"));
    registry.remove_with_id(1);
    assert_eq!(registry.get_from_id(1), None);
    assert_eq!(registry.get_from_ip(addr(1, 1)), None);
    assert_eq!(registry.get_from_id(2).map(|found| found.id), Some(2));
}

#[test]
fn removed_address_is_not_found() {
    let mut registry = LifeformList::new();
    registry.add(player(1, addr(1, 1), "r1"));
    registry.add(player(2, addr(2, 1), "r1"));
    registry.remove_with_ip(addr(2, 1));
    assert_eq!(registry.get_from_ip(addr(2, 1)), None);
    assert_eq!(registry.get_from_id(2), None);
    assert_eq!(registry.get_from_ip(addr(1, 1)).map(|found| found.id), Some(1));
}

#[test]
fn removal_leaves_indexes_and_room_lists() {
    let mut registry = LifeformList::new();
    registry.add(player(1, addr(1, 1), "r1"));
    registry.add(monster(2, "r1"));
    registry.remove_with_id(1);
    registry.remove_with_id(2);
    assert!(registry.has_id(1));
    assert!(registry.has_ip(addr(1, 1)));
    let room = "r1".to_string();
    assert_eq!(registry.in_room(&room, LifeformType::Player), Some(&vec![1]));
    assert_eq!(registry.in_room(&room, LifeformType::Monster), Some(&vec![2]));
    registry.remove_with_id(1);
    assert_eq!(registry.get_from_id(1), None);
}

#[test]
fn addresses_in_room_skip_monsters_the_addressless_and_the_removed() {
    let a = addr(1, 1);
    let b = addr(2, 1);
    let c = addr(3, 1);
    let d = addr(4, 1);
    let mut registry = LifeformList::new();
    registry.add(player(1, a, "r1"));
    registry.add(lifeform(2, LifeformType::Monster, Some(addr(9, 9)), "r1", at(0, 0, 0)));
    registry.add(lifeform(3, LifeformType::Player, None, "r1", at(0, 0, 0)));
    registry.add(player(4, b, "r2"));
    registry.add(player(5, c, "r1"));
    registry.add(player(6, d, "r1"));
    let room = "r1".to_string();
    assert_eq!(registry.ip_in_room(&room), vec![a, c, d]);
    registry.remove_with_id(5);
    assert_eq!(registry.ip_in_room(&room), vec![a, d]);
    assert_eq!(registry.ip_in_room(&"r2".to_string()), vec![b]);
    assert_eq!(registry.ip_in_room(&"r3".to_string()), Vec::<Address>::new());
}

#[test]
fn position_finds_the_first_present_match() {
    let spot = at(10, 20, 30);
    let mut registry = LifeformList::new();
    registry.add(lifeform(1, LifeformType::Player, Some(addr(1, 1)), "r1", at(10, 20, 31)));
    registry.add(lifeform(2, LifeformType::Monster, None, "r1", spot));
    registry.add(lifeform(3, LifeformType::Player, Some(addr(3, 1)), "r2", spot));
    assert_eq!(registry.get_from_transform(spot).map(|found| found.id), Some(2));
    assert_eq!(registry.get_from_transform(at(10, 20, 31)).map(|found| found.id), Some(1));
    assert_eq!(registry.get_from_transform(at(30, 20, 10)), None);
    registry.remove_with_id(2);
    assert_eq!(registry.get_from_transform(spot).map(|found| found.id), Some(3));
    registry.remove_with_id(3);
    assert_eq!(registry.get_from_transform(spot), None);
}

#[test]
fn position_match_returns_the_whole_record() {
    let record = lifeform(8, LifeformType::Player, Some(addr(8, 8)), "cave", at(4, 5, 6));
    let mut registry = LifeformList::new();
    registry.add(record.clone());
    assert_eq!(registry.get_from_transform(at(4, 5, 6)), Some(record));
}

#[test]
fn replace_overwrites_the_slot_only() {
    let a = addr(1, 1);
    let b = addr(2, 2);
    let mut registry = LifeformList::new();
    registry.add(lifeform(1, LifeformType::Player, Some(a), "r1", at(1, 1, 1)));
    let moved = lifeform(1, LifeformType::Player, Some(b), "r2", at(2, 2, 2));
    registry.replace(moved.clone());
    assert_eq!(registry.get_from_id(1), Some(moved.clone()));
    assert_eq!(registry.get_from_ip(a), Some(moved.clone()));
    assert!(!registry.has_ip(b));
    assert_eq!(registry.in_room(&"r1".to_string(), LifeformType::Player), Some(&vec![1]));
    assert_eq!(registry.in_room(&"r2".to_string(), LifeformType::Player), None);
    assert_eq!(registry.ip_in_room(&"r2".to_string()), vec![b]);
    assert_eq!(registry.get_from_transform(at(1, 1, 1)), None);
    assert_eq!(registry.get_from_transform(at(2, 2, 2)), Some(moved));
}

#[test]
fn replace_refills_an_emptied_slot() {
    let mut registry = LifeformList::new();
    registry.add(player(1, addr(1, 1), "r1"));
    registry.remove_with_id(1);
    assert_eq!(registry.get_from_id(1), None);
    let back = player(1, addr(1, 1), "r1");
    registry.replace(back.clone());
    assert_eq!(registry.get_from_id(1), Some(back));
}

#[test]
fn duplicate_identifier_shadows_the_earlier_slot() {
    let a = addr(1, 1);
    let b = addr(2, 2);
    let mut registry = LifeformList::new();
    let first = lifeform(7, LifeformType::Player, Some(a), "r1", at(1, 0, 0));
    let second = lifeform(7, LifeformType::Player, Some(b), "r1", at(2, 0, 0));
    registry.add(first.clone());
    registry.add(second.clone());
    assert_eq!(registry.get_from_id(7), Some(second));
    assert_eq!(registry.get_from_ip(a), Some(first));
    assert_eq!(registry.in_room(&"r1".to_string(), LifeformType::Player), Some(&vec![7, 7]));
    assert_eq!(registry.ip_in_room(&"r1".to_string()), vec![a, b]);
}

#[test]
fn reused_address_maps_to_the_newer_slot() {
    let a = addr(1, 1);
    let mut registry = LifeformList::new();
    registry.add(player(1, a, "r1"));
    registry.add(player(2, a, "r1"));
    assert_eq!(registry.get_from_ip(a).map(|found| found.id), Some(2));
    assert_eq!(registry.get_from_id(1).map(|found| found.id), Some(1));
    registry.remove_with_ip(a);
    assert_eq!(registry.get_from_id(2), None);
    assert_eq!(registry.get_from_id(1).map(|found| found.id), Some(1));
    assert_eq!(registry.ip_in_room(&"r1".to_string()), vec![a]);
}

#[test]
fn walk_visits_present_slots_in_order() {
    let mut registry = LifeformList::new();
    for id in 0..6u64 {
        registry.add(monster(id, "pit"));
    }
    registry.remove_with_id(0);
    registry.remove_with_id(3);
    registry.remove_with_id(5);
    let mut seen = Vec::new();
    let mut start = 0;
    while let Some((slot, found)) = registry.next_from(start) {
        seen.push((slot, found.id));
        start = slot + 1;
    }
    assert_eq!(seen, vec![(1, 1), (2, 2), (4, 4)]);
    assert_eq!(registry.next_from(5), None);
    assert_eq!(registry.next_from(100), None);
}

#[test]
fn clone_keeps_every_field() {
    let record = lifeform(3, LifeformType::Monster, Some(addr(3, 3)), "den", at(9, 8, 7));
    let copy = record.clone();
    assert_eq!(copy.id, 3);
    assert_eq!(copy.kind, LifeformType::Monster);
    assert_eq!(copy.ip, Some(addr(3, 3)));
    assert_eq!(copy.room, "den");
    assert_eq!(copy.position, at(9, 8, 7));
    assert_eq!(copy, record);
}

#[test]
fn address_index_maps_each_address_once() {
    let a = addr(1, 1);
    let b = addr(2, 1);
    let mut index = AddressIndex::new();
    assert_eq!(index.get(a), None);
    index.insert(a, 0);
    index.insert(b, 1);
    assert_eq!(index.get(a), Some(0));
    assert_eq!(index.get(b), Some(1));
    index.insert(a, 5);
    assert_eq!(index.get(a), Some(5));
    assert_eq!(index.get(b), Some(1));
    assert_eq!(index.get(addr(3, 1)), None);
}

#[test]
fn room_index_appends_in_order_per_room() {
    let mut rooms = RoomIndex::new();
    let hall = "hall".to_string();
    let yard = "yard".to_string();
    assert_eq!(rooms.get(&hall), None);
    rooms.join(&hall, 4);
    rooms.join(&yard, 9);
    rooms.join(&hall, 2);
    rooms.join(&hall, 4);
    rooms.join(&yard, 1);
    assert_eq!(rooms.get(&hall), Some(&vec![4, 2, 4]));
    assert_eq!(rooms.get(&yard), Some(&vec![9, 1]));
    assert_eq!(rooms.get(&"".to_string()), None);
}

#[test]
fn rooms_of_players_and_monsters_are_kept_apart() {
    let mut registry = LifeformList::new();
    registry.add(monster(1, "a"));
    registry.add(player(2, addr(2, 2), "b"));
    registry.add(monster(3, "b"));
    registry.add(player(4, addr(4, 4), "a"));
    registry.add(monster(5, "a"));
    let a = "a".to_string();
    let b = "b".to_string();
    assert_eq!(registry.in_room(&a, LifeformType::Monster), Some(&vec![1, 5]));
    assert_eq!(registry.in_room(&a, LifeformType::Player), Some(&vec![4]));
    assert_eq!(registry.in_room(&b, LifeformType::Monster), Some(&vec![3]));
    assert_eq!(registry.in_room(&b, LifeformType::Player), Some(&vec![2]));
}
