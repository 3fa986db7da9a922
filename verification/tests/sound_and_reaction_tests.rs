use fe_monitor::model::Transition;
use fe_monitor::reaction::{next_purchase_step, sku_change_message, transition_message, PurchasePolicy, PurchaseStep};
use fe_monitor::simulate::simulate_available_product;
use fe_monitor::sound::{
    get_sound_path, play_error_alert, play_purchase_alert, play_purchase_alert_blocking,
    play_sound, play_sound_with_options,
};

#[test]
fn sound_paths_are_rooted_in_the_assets_directory() {
    assert_eq!(get_sound_path("alert_buy.mp3"), "shared/assets/sounds/alert_buy.mp3");
}

#[test]
fn sound_plans_carry_the_right_file_and_mode() {
    let plan = play_sound("ping.mp3");
    assert_eq!(plan.path, "shared/assets/sounds/ping.mp3");
    assert!(!plan.blocking);

    let plan = play_sound_with_options("ping.mp3", true);
    assert!(plan.blocking);

    let plan = play_purchase_alert();
    assert_eq!(plan.path, "shared/assets/sounds/alert_buy.mp3");
    assert!(!plan.blocking);

    let plan = play_purchase_alert_blocking();
    assert_eq!(plan.path, "shared/assets/sounds/alert_buy.mp3");
    assert!(plan.blocking);

    let plan = play_error_alert();
    assert_eq!(plan.path, "shared/assets/sounds/alert_down.mp3");
    assert!(!plan.blocking);
}

#[test]
fn purchase_retry_follows_the_policy() {
    let policy = PurchasePolicy { max_attempts: 3, retry_delay_ms: 500 };
    assert_eq!(next_purchase_step(&policy, 1, true), PurchaseStep::Done);
    assert_eq!(next_purchase_step(&policy, 1, false), PurchaseStep::RetryAfterMs(500));
    assert_eq!(next_purchase_step(&policy, 2, false), PurchaseStep::RetryAfterMs(500));
    assert_eq!(next_purchase_step(&policy, 3, false), PurchaseStep::GiveUp);
    assert_eq!(next_purchase_step(&policy, 3, true), PurchaseStep::Done);
}

#[test]
fn single_attempt_policy_gives_up_at_once() {
    let policy = PurchasePolicy { max_attempts: 1, retry_delay_ms: 250 };
    assert_eq!(next_purchase_step(&policy, 1, false), PurchaseStep::GiveUp);
}

#[test]
fn notification_texts_are_exact() {
    assert_eq!(
        sku_change_message("PRO580GFTNV"),
        "SKU change detected! New SKU: PRO580GFTNV"
    );
    let t = Transition {
        fe_sku: String::from("X"),
        previous_state: String::from(""),
        new_state: String::from("true"),
        product_url: String::from("https://shop/buy"),
    };
    assert_eq!(
        transition_message(&t),
        "Found available product: X at https://shop/buy"
    );
}

#[test]
fn simulation_hands_out_the_sample_url() {
    let r = simulate_available_product("GeForce RTX 5090", false).unwrap().unwrap();
    assert_eq!(r.0, "GeForce RTX 5090");
    assert!(r.1.starts_with("https://www.proshop.de/Basket/BuyNvidiaGraphicCard?t="));
}

#[test]
fn simulation_can_force_an_error() {
    assert!(simulate_available_product("GeForce RTX 5090", true).is_err());
}
