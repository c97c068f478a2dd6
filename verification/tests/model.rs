use signed::geometry::Position;
use signed::misc::UpdateTracker;
use signed::object::Object;
use signed::panel::Panel;
use signed::point::Point;
use signed::project::Project;
use signed::renderview::RenderView;
use signed::sidebar::Sidebar;
use signed::ui::{UiCommand, UiEvent};

#[test]
fn point_new_defaults() {
    let p = Point::new();
    assert_eq!(p.name, "");
    assert_eq!(p.position, Position { x: 0, y: 0, z: 0 });
}

#[test]
fn position_from_units() {
    let p = Position::from_units(1, -2, 3);
    assert_eq!(p, Position { x: 1000, y: -2000, z: 3000 });
}

#[test]
fn object_new_defaults() {
    let o = Object::new();
    assert_eq!(o.name, "New Object");
    assert_eq!(o.points.len(), 2);
    assert_eq!(o.points[0].name, "Point A");
    assert_eq!(o.points[0].position, Position { x: 0, y: 0, z: 0 });
    assert_eq!(o.points[1].name, "Point B");
    assert_eq!(o.points[1].position, Position { x: 0, y: 1000, z: 0 });
    assert_ne!(o.points[0].id, o.points[1].id);
}

#[test]
fn project_new_empty() {
    let p = Project::new();
    assert_eq!(p.name, "");
    assert!(p.objects.is_empty());
}

#[test]
fn project_add_and_get() {
    let mut p = Project::new();
    let a = Object::new();
    let b = Object::new();
    let a_id = a.id;
    let b_id = b.id;
    assert_ne!(a_id, b_id);
    p.add_object(a);
    p.add_object(b);
    assert_eq!(p.objects.len(), 2);

    let found = p.get_object_mut(b_id).expect("second object should be found");
    found.name = "Renamed".to_owned();
    assert_eq!(p.objects[1].name, "Renamed");
    assert_eq!(p.objects[0].name, "New Object");
}

#[test]
fn project_get_missing() {
    let mut p = Project::new();
    p.add_object(Object::new());
    let present: u128 = p.objects[0].id;
    let absent = present.wrapping_add(1);
    assert!(p.get_object_mut(absent).is_none());
}

#[test]
fn update_tracker_before_interval() {
    let mut t = UpdateTracker::new(1000);
    assert!(!t.update(1499, 500));
    assert_eq!(t.last_tick_ms, 1000);
}

#[test]
fn update_tracker_at_interval() {
    let mut t = UpdateTracker::new(1000);
    assert!(t.update(1500, 500));
    assert_eq!(t.last_tick_ms, 1500);
    assert!(!t.update(1999, 500));
    assert!(t.update(2100, 500));
    assert_eq!(t.last_tick_ms, 2100);
}

#[test]
fn sidebar_new_width() {
    let s = Sidebar::new();
    assert_eq!(s.width, 380);
}

#[test]
fn sidebar_object_add_extends_project() {
    let mut s = Sidebar::new();
    let mut p = Project::new();
    let event = UiEvent::StateChanged { id_name: "Object Add".to_owned(), id_uuid: 7 };
    let (redraw, commands) = s.handle_event(&event, true, &mut p);
    assert!(!redraw);
    assert_eq!(p.objects.len(), 1);
    assert_eq!(p.objects[0].name, "New Object");
    assert_eq!(commands.len(), 1);
    match &commands[0] {
        UiCommand::AddObjectListItem { item_uuid, text } => {
            assert_eq!(*item_uuid, p.objects[0].id);
            assert_eq!(text, "New Object");
        }
    }
}

#[test]
fn sidebar_object_add_needs_list() {
    let mut s = Sidebar::new();
    let mut p = Project::new();
    let event = UiEvent::StateChanged { id_name: "Object Add".to_owned(), id_uuid: 7 };
    let (redraw, commands) = s.handle_event(&event, false, &mut p);
    assert!(!redraw);
    assert!(p.objects.is_empty());
    assert!(commands.is_empty());
}

#[test]
fn sidebar_ignores_other_events() {
    let mut s = Sidebar::new();
    let mut p = Project::new();
    let named = UiEvent::StateChanged { id_name: "Object Remove".to_owned(), id_uuid: 1 };
    let (_, commands) = s.handle_event(&named, true, &mut p);
    assert!(p.objects.is_empty());
    assert!(commands.is_empty());
    let (_, commands) = s.handle_event(&UiEvent::Other, true, &mut p);
    assert!(p.objects.is_empty());
    assert!(commands.is_empty());
}

#[test]
fn sidebar_load_from_project_is_quiet() {
    let mut s = Sidebar::new();
    let p = Project::new();
    assert!(s.load_from_project(&p).is_empty());
}

#[test]
fn sidebar_deselect_mask() {
    let mut s = Sidebar::new();
    let names = vec![
        "Objects Section".to_owned(),
        "Points Section".to_owned(),
        "Shapes Section".to_owned(),
    ];
    let mask = s.deselect_sections_buttons(&names, &"Objects".to_owned());
    assert_eq!(mask, vec![false, true, true]);
    let mask = s.deselect_sections_buttons(&names, &"Points".to_owned());
    assert_eq!(mask, vec![true, false, true]);
}

#[test]
fn sidebar_selected_in_list() {
    let s = Sidebar::new();
    let items = vec![(10u128, false), (20u128, true), (30u128, true)];
    assert_eq!(s.get_selected_in_list_layout(&items), Some(20));
    let none = vec![(10u128, false), (20u128, false)];
    assert_eq!(s.get_selected_in_list_layout(&none), None);
    assert_eq!(s.get_selected_in_list_layout(&Vec::new()), None);
}

#[test]
fn panel_and_renderview_are_passive() {
    let mut panel = Panel::new();
    let mut view = RenderView::new();
    let mut p = Project::new();
    let event = UiEvent::StateChanged { id_name: "Open".to_owned(), id_uuid: 3 };
    assert!(!panel.handle_event(&event, &mut p));
    assert!(!view.handle_event(&event, &mut p));
    assert!(p.objects.is_empty());
}
