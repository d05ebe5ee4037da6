use gui_system::anymap;
use gui_system::public_data::PublicData;
use gui_system::public_data::WindowCommand;
use gui_system::public_data::get_engine_data;
use gui_system::public_data::update_screen_size;
use gui_system::public_data::update_window_position;
use gui_system::geometry::Vec2i;
use gui_system::runtime_data::RuntimeData;
use gui_system::slotmap::Slotmap;
use glam::uvec2;
use glam::UVec2;
use std::any::TypeId;

struct TestData {
    pub size: UVec2,
    pub collection: Vec<f32>,
}

impl TestData {
    pub fn new() -> Self {
        Self { size: uvec2(0, 50), collection: Vec::new() }
    }
}

struct OtherData {
    pub value: u8,
}

#[test]
fn create_and_store_anymap() {
    let rt_slotmap = Slotmap::<OtherData>::new_with_capacity(10);
    let mut td_slotmap = Slotmap::<TestData>::new_with_capacity(20);

    let mut td = TestData::new();
    td.size.x = 20;

    let td_key = td_slotmap.push(td).expect("Could not add data to slotmap");

    let mut anymap = anymap::Anymap::new();

    anymap.insert(rt_slotmap);
    anymap.insert(td_slotmap);

    {
        let sl = anymap.get::<Slotmap<TestData>>().expect("Test data slotmap was not added");
        let td_1 = sl.get_value(&td_key).expect("Could not get recently added value");
        assert_eq!(td_1.size.x, 20);
    }

    {
        let sl = anymap.get_mut::<Slotmap<TestData>>().expect("Test data slotmap was not added");
        let td_1 = sl.get_value_mut(&td_key).expect("Could not get recently added value");
        td_1.size.y = 46541;
        assert_eq!(td_1.size.x, 20);
    }

    {
        let sl = anymap.get::<Slotmap<TestData>>().expect("Test data slotmap was not added");
        let td_1 = sl.get_value(&td_key).expect("Could not get recently added value");
        assert_eq!(td_1.size.x, 20);
        assert_eq!(td_1.size.y, 46541);
        assert_eq!(td_1.collection.len(), 0);
    }
}

#[test]
fn second_value_of_a_type_is_handed_back() {
    let mut map = anymap::Anymap::new();
    assert!(!map.contains::<u32>());
    assert!(map.insert(5u32).is_none());
    assert!(map.contains::<u32>());
    assert_eq!(map.insert(6u32), Some(6u32));
    assert_eq!(map.get::<u32>(), Some(&5));
    assert!(map.insert(OtherData { value: 3 }).is_none());
    assert_eq!(map.get::<OtherData>().map(|d| d.value), Some(3));
    assert_eq!(map.get::<u64>(), None);
    assert!(map.get_mut::<u64>().is_none());
}

#[test]
fn removal_by_type_leaves_the_others() {
    let mut map = anymap::Anymap::new();
    assert!(map.insert(5u32).is_none());
    assert!(map.insert(7u64).is_none());
    assert!(map.insert(String::from("name")).is_none());
    map.remove::<u64>();
    assert!(!map.contains::<u64>());
    assert_eq!(map.get::<u32>(), Some(&5));
    assert_eq!(map.get::<String>().map(|s| s.as_str()), Some("name"));
    map.remove::<u64>();
    assert!(map.contains::<u32>());
    assert!(map.insert(8u64).is_none());
    assert_eq!(map.get::<u64>(), Some(&8));
}

#[test]
fn values_are_found_by_type_identifier() {
    let mut map = anymap::Anymap::new();
    assert!(map.insert(5u32).is_none());
    assert!(map.contains_key(&TypeId::of::<u32>()));
    assert!(!map.contains_key(&TypeId::of::<i32>()));
    assert!(map.get_any(TypeId::of::<u32>()).is_some());
    assert!(map.get_any(TypeId::of::<i32>()).is_none());
    assert!(map.get_mut_any(TypeId::of::<u32>()).is_some());
    assert!(map.get_mut_any(TypeId::of::<i32>()).is_none());
    let taken = map.remove_key(&TypeId::of::<u32>()).expect("there");
    let refused = map.insert_any(TypeId::of::<u32>(), taken);
    assert!(refused.is_none());
    assert_eq!(map.get::<u32>(), Some(&5));
    let again = map.remove_key(&TypeId::of::<u32>()).expect("there");
    assert!(map.insert(9u32).is_none());
    assert!(map.insert_any(TypeId::of::<u32>(), again).is_some());
    assert_eq!(map.get::<u32>(), Some(&9));
    assert!(map.remove_key(&TypeId::of::<i8>()).is_none());
}

#[test]
fn changes_in_place_are_kept() {
    let mut map = anymap::Anymap::new();
    assert!(map.insert(vec![1u8, 2, 3]).is_none());
    map.get_mut::<Vec<u8>>().expect("there").push(4);
    assert_eq!(map.get::<Vec<u8>>(), Some(&vec![1u8, 2, 3, 4]));
}

#[test]
fn commands_are_taken_in_the_order_queued() {
    let mut data = PublicData::new();
    data.push_mut(WindowCommand::SetInnerSize(Vec2i::new(200, 100)));
    data.push_mut(WindowCommand::SetOuterPosition(Vec2i::new(3, 4)));
    let commands = data.apply_mut();
    assert_eq!(
        commands,
        vec![
            WindowCommand::SetInnerSize(Vec2i::new(200, 100)),
            WindowCommand::SetOuterPosition(Vec2i::new(3, 4)),
        ]
    );
    assert_eq!(data.apply_mut(), vec![]);
}

#[test]
fn engine_data_is_recorded() {
    let mut data = PublicData::new();
    update_screen_size(&mut data, Vec2i::new(800, 600));
    update_window_position(&mut data, Vec2i::new(30, 40));
    assert_eq!(get_engine_data(&data).screen_size, Vec2i::new(800, 600));
    assert_eq!(get_engine_data(&data).window_position, Vec2i::new(30, 40));
}

#[test]
fn runtime_data_holds_the_public_collection() {
    let mut data = RuntimeData::new();
    assert!(data.insert_pub(5u32).is_none());
    assert_eq!(data.insert_pub(6u32), Some(6));
    assert_eq!(data.public_data.collection.get::<u32>(), Some(&5));
    assert!(data.public_data.insert(1u8).is_none());
    data.public_data.push_mut(WindowCommand::SetInnerSize(Vec2i::new(1, 2)));
    assert_eq!(data.apply_pub_mut(), vec![WindowCommand::SetInnerSize(Vec2i::new(1, 2))]);
    assert_eq!(data.apply_pub_mut(), vec![]);
}

#[test]
fn maps_built_through_their_methods_are_well_formed() {
    let mut map = anymap::Anymap::new();
    assert!(map.is_well_formed());
    assert!(map.insert(1u8).is_none());
    assert!(map.insert(2u16).is_none());
    assert!(map.insert(3u16).is_some());
    map.remove::<u8>();
    assert!(map.is_well_formed());
    let data = PublicData::new();
    assert!(data.collection.is_well_formed());
}
