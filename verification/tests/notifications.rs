use eleviewr::notifications::{
    Notification, NotificationManager, NotificationType, DEFAULT_NOTIFICATION_DURATION_MS,
    MAX_LIVE_NOTIFICATIONS,
};

#[test]
fn new_uses_default_duration() {
    let n = Notification::new("hello".to_string(), NotificationType::Info, 1000);
    assert_eq!(n.message, "hello");
    assert!(matches!(n.notification_type, NotificationType::Info));
    assert_eq!(n.created_at_ms, 1000);
    assert_eq!(n.duration_ms, DEFAULT_NOTIFICATION_DURATION_MS);
    assert_eq!(n.duration_ms, 3000);
}

#[test]
fn with_duration_keeps_chosen_span() {
    let n = Notification::with_duration("x".to_string(), NotificationType::Error, 750, 20);
    assert_eq!(n.duration_ms, 750);
    assert_eq!(n.created_at_ms, 20);
}

#[test]
fn expiry_is_strictly_after_duration() {
    let n = Notification::new("x".to_string(), NotificationType::Info, 1000);
    assert!(!n.is_expired(1000));
    assert!(!n.is_expired(4000));
    assert!(n.is_expired(4001));
    assert!(!n.is_expired(0));
}

#[test]
fn opacity_follows_fade_curve() {
    let n = Notification::new("x".to_string(), NotificationType::Info, 1000);
    assert_eq!(n.opacity_permille(1000), 0);
    assert_eq!(n.opacity_permille(1250), 500);
    assert_eq!(n.opacity_permille(1500), 1000);
    assert_eq!(n.opacity_permille(3500), 1000);
    assert_eq!(n.opacity_permille(3750), 500);
    assert_eq!(n.opacity_permille(4000), 0);
    assert_eq!(n.opacity_permille(9999), 0);
}

#[test]
fn opacity_with_short_duration_still_fades_in() {
    let n = Notification::with_duration("x".to_string(), NotificationType::Info, 300, 0);
    assert_eq!(n.opacity_permille(0), 0);
    assert_eq!(n.opacity_permille(100), 200);
    // The fade-in window is checked first, exactly as rendered; expiry is
    // what removes such an entry.
    assert_eq!(n.opacity_permille(400), 800);
    assert!(n.is_expired(400));
    assert_eq!(n.opacity_permille(600), 0);
}

#[test]
fn six_pushes_keep_only_five() {
    let mut m = NotificationManager::new();
    for i in 0..6u64 {
        m.add_info(format!("msg{}", i), i);
    }
    let q = m.get_notifications();
    assert_eq!(q.len(), MAX_LIVE_NOTIFICATIONS);
    assert_eq!(q.len(), 5);
    assert_eq!(q[0].message, "msg1");
    assert_eq!(q[4].message, "msg5");
}

#[test]
fn add_helpers_set_severity() {
    let mut m = NotificationManager::new();
    m.add_info("i".to_string(), 0);
    m.add_success("s".to_string(), 0);
    m.add_warning("w".to_string(), 0);
    m.add_error("e".to_string(), 0);
    let q = m.get_notifications();
    assert!(matches!(q[0].notification_type, NotificationType::Info));
    assert!(matches!(q[1].notification_type, NotificationType::Success));
    assert!(matches!(q[2].notification_type, NotificationType::Warning));
    assert!(matches!(q[3].notification_type, NotificationType::Error));
}

#[test]
fn update_removes_only_expired_and_keeps_order() {
    let mut m = NotificationManager::new();
    m.add_notification(Notification::with_duration("old".to_string(), NotificationType::Info, 100, 0));
    m.add_notification(Notification::new("young".to_string(), NotificationType::Info, 900));
    m.add_notification(Notification::with_duration("older".to_string(), NotificationType::Info, 50, 0));
    m.add_notification(Notification::new("fresh".to_string(), NotificationType::Info, 950));
    m.update(1000);
    let q = m.get_notifications();
    assert_eq!(q.len(), 2);
    assert_eq!(q[0].message, "young");
    assert_eq!(q[1].message, "fresh");
}

#[test]
fn clear_drops_everything() {
    let mut m = NotificationManager::default();
    m.add_info("a".to_string(), 0);
    m.add_info("b".to_string(), 0);
    m.clear();
    assert_eq!(m.get_notifications().len(), 0);
}
