use reserva::models::ItemPayload;
use reserva::models::MachinePayload;
use reserva::models::PropertyPayload;
use reserva::models::RolePayload;
use reserva::models::UserPayload;
use reserva::service::create_reply;
use reserva::service::destroy_reply;
use reserva::service::list_reply;
use reserva::service::show_reply;
use reserva::service::update_reply;
use reserva::table::Table;

fn role(name: &str) -> RolePayload {
    RolePayload { name: name.to_string() }
}

#[test]
fn create_assigns_fresh_ids_and_equal_timestamps() {
    let mut roles: Table<RolePayload> = Table::new();
    let first = roles.create(role("admin")).unwrap();
    let second = roles.create(role("tenant")).unwrap();
    assert_ne!(first, second);
    let row = roles.find(first).unwrap();
    assert_eq!(row.id, first);
    assert_eq!(row.created_at, row.updated_at);
}

#[test]
fn create_then_fetch_returns_created_data() {
    let mut roles: Table<RolePayload> = Table::new();
    assert!(roles.create_with(7, 100, role("admin")));
    let row = roles.find(7).unwrap();
    assert_eq!(row.id, 7);
    assert_eq!(row.created_at, 100);
    assert_eq!(row.updated_at, 100);
    assert_eq!(row.data.name, "admin");
}

#[test]
fn create_refuses_a_taken_id() {
    let mut roles: Table<RolePayload> = Table::new();
    assert!(roles.create_with(7, 100, role("admin")));
    assert!(!roles.create_with(7, 101, role("other")));
    assert_eq!(roles.find(7).unwrap().data.name, "admin");
}

#[test]
fn update_replaces_all_fields_and_bumps_the_timestamp() {
    let mut users: Table<UserPayload> = Table::new();
    let payload = UserPayload { name: "ada".to_string(), role: 1, property: Some(4) };
    assert!(users.create_with(9, 100, payload));
    let replacement = UserPayload { name: "grace".to_string(), role: 2, property: None };
    assert!(users.update_with(9, 150, replacement));
    let row = users.find(9).unwrap();
    assert_eq!(row.id, 9);
    assert_eq!(row.created_at, 100);
    assert_eq!(row.updated_at, 150);
    assert_eq!(row.data.name, "grace");
    assert_eq!(row.data.role, 2);
    assert_eq!(row.data.property, None);
}

#[test]
fn update_of_a_missing_row_fails_with_500() {
    let mut roles: Table<RolePayload> = Table::new();
    assert!(!roles.update_with(3, 100, role("nobody")));
    let reply = update_reply(&mut roles, 3, role("nobody"));
    let err = reply.err().unwrap();
    assert_eq!(err.status, 500);
    assert_eq!(err.message, "Internal Server Error");
}

#[test]
fn update_reply_answers_200_ok_and_replaces_fields() {
    let mut roles: Table<RolePayload> = Table::new();
    assert!(roles.create_with(7, 100, role("admin")));
    let reply = update_reply(&mut roles, 7, role("staff"));
    let ok = reply.ok().unwrap();
    assert_eq!(ok.status, 200);
    assert_eq!(ok.message, "OK");
    assert_eq!(ok.data, 7);
    let row = roles.find(7).unwrap();
    assert_eq!(row.data.name, "staff");
    assert_eq!(row.created_at, 100);
}

#[test]
fn clock_backed_update_keeps_the_creation_time() {
    let mut roles: Table<RolePayload> = Table::new();
    let id = roles.create(role("admin")).unwrap();
    let created = roles.find(id).unwrap().created_at;
    assert!(roles.update(id, role("staff")));
    let row = roles.find(id).unwrap();
    assert_eq!(row.id, id);
    assert_eq!(row.created_at, created);
    assert_eq!(row.data.name, "staff");
}

#[test]
fn delete_then_fetch_is_not_found() {
    let mut roles: Table<RolePayload> = Table::new();
    assert!(roles.create_with(7, 100, role("admin")));
    assert_eq!(roles.delete(7), 1);
    assert!(roles.find(7).is_none());
    let reply = show_reply(&roles, 7, "Role");
    assert_eq!(reply.err().unwrap().status, 404);
}

#[test]
fn delete_of_a_missing_row_reports_zero_rows() {
    let mut roles: Table<RolePayload> = Table::new();
    assert_eq!(roles.delete(99), 0);
    let reply = destroy_reply(&mut roles, 99);
    assert_eq!(reply.status, 200);
    assert_eq!(reply.message, "Deleted");
    assert_eq!(reply.data, 0);
}

#[test]
fn destroy_reports_the_deleted_row() {
    let mut roles: Table<RolePayload> = Table::new();
    assert!(roles.create_with(7, 100, role("admin")));
    let reply = destroy_reply(&mut roles, 7);
    assert_eq!(reply.status, 200);
    assert_eq!(reply.data, 1);
    assert!(roles.find(7).is_none());
}

#[test]
fn show_of_a_missing_row_is_404_not_500() {
    let roles: Table<RolePayload> = Table::new();
    let reply = show_reply(&roles, 42, "Role");
    let err = reply.err().unwrap();
    assert_eq!(err.status, 404);
    assert_eq!(err.message, "Role not found");
}

#[test]
fn show_of_a_present_row_is_200() {
    let mut roles: Table<RolePayload> = Table::new();
    assert!(roles.create_with(7, 100, role("admin")));
    let reply = show_reply(&roles, 7, "Role");
    let ok = reply.ok().unwrap();
    assert_eq!(ok.status, 200);
    assert_eq!(ok.message, "OK");
    assert_eq!(ok.data.data.name, "admin");
}

#[test]
fn create_reply_answers_201_created() {
    let mut roles: Table<RolePayload> = Table::new();
    let reply = create_reply(&mut roles, role("admin"));
    let ok = reply.ok().unwrap();
    assert_eq!(ok.status, 201);
    assert_eq!(ok.message, "Created");
    assert_eq!(roles.find(ok.data).unwrap().data.name, "admin");
}

#[test]
fn list_returns_every_row_oldest_first() {
    let mut roles: Table<RolePayload> = Table::new();
    assert!(roles.create_with(1, 100, role("a")));
    assert!(roles.create_with(2, 101, role("b")));
    assert!(roles.create_with(3, 102, role("c")));
    let reply = list_reply(&roles);
    assert_eq!(reply.status, 200);
    assert_eq!(reply.message, "OK");
    let names: Vec<&str> = reply.data.iter().map(|r| r.data.name.as_str()).collect();
    assert_eq!(names, vec!["a", "b", "c"]);
}

#[test]
fn every_resource_kind_round_trips() {
    let mut properties: Table<PropertyPayload> = Table::new();
    let payload = PropertyPayload {
        name: "mill".to_string(),
        address: "1 main st".to_string(),
        address2: None,
        city: "zurich".to_string(),
        zip: "8000".to_string(),
        owner: 5,
    };
    assert!(properties.create_with(11, 100, payload));
    let row = properties.find(11).unwrap();
    assert_eq!(row.data.city, "zurich");
    assert_eq!(row.data.address2, None);

    let mut machines: Table<MachinePayload> = Table::new();
    let payload = MachinePayload {
        name: "washer".to_string(),
        property: 11,
        status: "free".to_string(),
        eta: 1_700_000_000,
    };
    assert!(machines.create_with(12, 100, payload));
    let row = machines.find(12).unwrap();
    assert_eq!(row.data.property, 11);
    assert_eq!(row.data.status, "free");
    assert_eq!(row.data.eta, 1_700_000_000);

    let mut items: Table<ItemPayload> = Table::new();
    let payload = ItemPayload {
        name: "jacket".to_string(),
        size: "m".to_string(),
        colors: "blue".to_string(),
        owner: 5,
    };
    assert!(items.create_with(13, 100, payload));
    let row = items.find(13).unwrap();
    assert_eq!(row.data.size, "m");
    assert_eq!(row.data.colors, "blue");
}
