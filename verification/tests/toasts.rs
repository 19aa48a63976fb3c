use augustus::toasts::{Toast, ToastAction, ToastLevel, ToastQueue, WarningWatch};

fn food_warning_only(active: bool) -> [bool; 6] {
    [false, false, false, false, active, false]
}

#[test]
fn warning_only_repeats_after_recovery() {
    let mut watch = WarningWatch::new();
    let mut toasts = ToastQueue::new();
    watch.observe(0, food_warning_only(true), &mut toasts);
    assert_eq!(toasts.toasts.len(), 2); // Welcome info and food warning.
    watch.observe(0, food_warning_only(true), &mut toasts);
    assert_eq!(toasts.toasts.len(), 2);
    watch.observe(0, food_warning_only(false), &mut toasts);
    watch.observe(0, food_warning_only(true), &mut toasts);
    assert_eq!(toasts.toasts.len(), 3);
}

#[test]
fn queued_toasts_request_one_sound_per_severity() {
    let mut toasts = ToastQueue::new();
    toasts.push(Toast::warning("First warning"));
    toasts.push(Toast::warning("Second warning"));
    toasts.push(Toast::info("Information"));
    toasts.push(Toast::error("Failure"));
    assert_eq!(toasts.pending_sounds, [true, true, true]);
    toasts.clear();
    assert_eq!(toasts.pending_sounds, [false; 3]);
}

#[test]
fn warnings_name_their_class_and_open_governance() {
    let mut watch = WarningWatch::new();
    let mut toasts = ToastQueue::new();
    watch.observe(1, [false, true, false, false, false, true], &mut toasts);
    let texts: Vec<&str> = toasts.toasts.iter().map(|toast| toast.text.as_str()).collect();
    assert_eq!(
        texts,
        ["Local practice started.", "Citizens are unhappy.", "The treasury is almost empty."]
    );
    assert_eq!(toasts.toasts[0].level, ToastLevel::Info);
    assert_eq!(toasts.toasts[0].action, None);
    assert_eq!(toasts.toasts[1].level, ToastLevel::Warning);
    assert_eq!(toasts.toasts[1].action, Some(ToastAction::OpenGovernance));
    assert_eq!(toasts.take_pending_sounds(), [true, true, false]);
    assert_eq!(toasts.pending_sounds, [false; 3]);
    watch.observe(2, [true, false, false, false, true, false], &mut toasts);
    let texts: Vec<&str> = toasts.toasts.iter().map(|toast| toast.text.as_str()).collect();
    assert_eq!(texts, ["Nobles are unhappy.", "Food stores are almost empty."]);
}

#[test]
fn queue_keeps_the_seven_newest_and_ages_them() {
    let mut toasts = ToastQueue::new();
    for index in 0..9 {
        toasts.push(Toast::info(&format!("notice {index}")));
    }
    assert_eq!(toasts.toasts.len(), 7);
    assert_eq!(toasts.toasts[0].text, "notice 2");
    assert_eq!(toasts.toasts[6].text, "notice 8");
    toasts.toasts[0].millis_left = 100;
    toasts.advance(100);
    assert_eq!(toasts.toasts.len(), 6);
    assert_eq!(toasts.toasts[0].text, "notice 3");
    assert_eq!(toasts.toasts[0].millis_left, 4900);
    toasts.dismiss(1);
    assert_eq!(toasts.toasts.len(), 5);
    assert_eq!(toasts.toasts[1].text, "notice 5");
    toasts.advance(4900);
    assert!(toasts.toasts.is_empty());
}
