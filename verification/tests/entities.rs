use space_invaders::entities::{Enemy, EnemyKind};
use space_invaders::event::{Direction, Event, EventKind};

#[test]
fn initial_health_by_kind() {
    assert_eq!(Enemy::initial_health(EnemyKind::Hard), 3);
    assert_eq!(Enemy::initial_health(EnemyKind::Medium), 2);
    assert_eq!(Enemy::initial_health(EnemyKind::Easy), 1);
}

#[test]
fn generate_row_layout() {
    let row = Enemy::generate_row(5, EnemyKind::Medium, 70);
    assert_eq!(row.len(), 5);
    for (i, e) in row.iter().enumerate() {
        assert_eq!(e.health, 2);
        assert_eq!(e.location.x, i as i32 * 70);
        assert_eq!(e.location.y, 70);
    }
}

#[test]
fn generate_row_empty() {
    let row = Enemy::generate_row(0, EnemyKind::Easy, 0);
    assert_eq!(row.len(), 0);
}

#[test]
fn player_move_event() {
    let e = Event::player_move(Direction::Left);
    assert_eq!(e.kind, EventKind::PlayerMove);
    assert_eq!(e.direction, Some(Direction::Left));
    let e = Event::player_move(Direction::Right);
    assert_eq!(e.direction, Some(Direction::Right));
}

#[test]
fn enemy_move_event() {
    let e = Event::enemy_move();
    assert_eq!(e.kind, EventKind::EnemyMove);
    assert_eq!(e.direction, None);
}
