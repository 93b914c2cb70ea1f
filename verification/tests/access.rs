use rhythm_arena::access::{
    authenticated, check_add_staff, check_delete_staff, check_update_staff, require_chart_manager,
    require_chart_modifier, require_judge, require_organizer, require_owner, role, Token,
};
use rhythm_arena::error::ResponseError;
use rhythm_arena::model::{Permission, StaffRole};

fn token(id: i64, permissions: Vec<Permission>) -> Token {
    Token { id, nickname: "n".to_owned(), permissions }
}

fn err<T: std::fmt::Debug>(r: Result<T, ResponseError>) -> (u16, String) {
    match r {
        Err(e) => (e.status(), e.body()),
        Ok(v) => panic!("unexpected {:?}", v),
    }
}

#[test]
fn sign_in_and_chart_library_permissions() {
    assert_eq!(err(authenticated(&token(0, vec![]))), (401, "authentication required".to_owned()));
    assert!(authenticated(&token(1, vec![])).is_ok());
    assert_eq!(err(require_chart_manager(&token(1, vec![Permission::User]))), (403, "chart library permission required".to_owned()));
    assert!(require_chart_manager(&token(1, vec![Permission::ChartLibrary])).is_ok());
    assert!(require_chart_modifier(&token(1, vec![Permission::ChartLibrary]), 1).is_ok());
    assert_eq!(err(require_chart_modifier(&token(1, vec![Permission::ChartLibrary]), 2)), (403, "can only modify your own charts".to_owned()));
    assert!(require_chart_modifier(&token(1, vec![Permission::DevOps]), 2).is_ok());
}

#[test]
fn staff_roles_nest() {
    assert_eq!(role(&token(0, vec![]), Some(StaffRole::Owner)), None);
    assert_eq!(role(&token(3, vec![]), Some(StaffRole::Judge)), Some(StaffRole::Judge));
    assert_eq!(err(require_judge(None)), (403, "tournament staff access required".to_owned()));
    assert_eq!(require_organizer(Some(StaffRole::Owner)).unwrap(), StaffRole::Owner);
    assert_eq!(err(require_organizer(Some(StaffRole::Judge))), (403, "organizer access required".to_owned()));
    assert_eq!(err(require_owner(Some(StaffRole::Organizer))), (403, "owner access required".to_owned()));
    assert!(require_owner(Some(StaffRole::Owner)).is_ok());
}

#[test]
fn managing_staff() {
    assert!(check_add_staff(StaffRole::Owner, StaffRole::Organizer, false).is_ok());
    assert_eq!(err(check_add_staff(StaffRole::Organizer, StaffRole::Organizer, false)), (403, "only the owner can manage organizers".to_owned()));
    assert_eq!(err(check_add_staff(StaffRole::Owner, StaffRole::Owner, false)), (403, "only the owner can manage organizers".to_owned()));
    assert_eq!(err(check_add_staff(StaffRole::Organizer, StaffRole::Judge, true)), (409, "user is already tournament staff".to_owned()));
    assert_eq!(err(check_update_staff(StaffRole::Owner, Some(StaffRole::Judge))), (400, "ownership transfer is not supported".to_owned()));
    assert_eq!(err(check_update_staff(StaffRole::Judge, None)), (404, "staff member not found".to_owned()));
    assert_eq!(err(check_update_staff(StaffRole::Judge, Some(StaffRole::Owner))), (409, "the owner role cannot be changed".to_owned()));
    assert!(check_update_staff(StaffRole::Organizer, Some(StaffRole::Judge)).is_ok());
    assert_eq!(err(check_delete_staff(StaffRole::Organizer, Some(StaffRole::Organizer))), (403, "only the owner can remove organizers".to_owned()));
    assert!(check_delete_staff(StaffRole::Owner, Some(StaffRole::Organizer)).is_ok());
    assert!(check_delete_staff(StaffRole::Organizer, Some(StaffRole::Judge)).is_ok());
    assert_eq!(err(check_delete_staff(StaffRole::Owner, None)), (404, "staff member not found".to_owned()));
    assert_eq!(err(check_delete_staff(StaffRole::Owner, Some(StaffRole::Owner))), (403, "only the owner can remove organizers".to_owned()));
}
