//! End-to-end tests of the market simulation core: the windowed history,
//! the global range, the projection, the portfolio, the renderer, the
//! label layout and the transient-message lifecycle.

use stockmarket::series::{vec_max, vec_min, Stock};
use stockmarket::portfolio::PlayerData;
use stockmarket::project::value_to_row;
use stockmarket::render::{make_buffer, render_deltas};
use stockmarket::layout::{message_y, place_price_labels};
use stockmarket::messages::{new_message, tick_messages, TransientMessage};
use stockmarket::{MarketError, ValueRange, BLACK, GREEN, RED, WHITE};

fn sample_stock() -> Stock {
    let mut stock = Stock::from_init_value(10);
    stock.history.push(12);
    stock.history.push(11);
    stock.history.push(11);
    stock.history.push(15);
    stock
}

#[test]
fn windowed_is_shorter_than_budget() {
    let stock = sample_stock();
    for scale in 1..4u32 {
        for budget in 2..8u32 {
            let window = stock.get_recent_history_scaled(budget, scale);
            assert!(window.len() < budget as usize);
            assert!(!window.is_empty());
        }
    }
}

#[test]
fn windowed_at_scale_one_ends_with_latest() {
    let stock = sample_stock();
    let window = stock.get_recent_history_scaled(4, 1);
    assert_eq!(window.last(), Some(&15));
    assert_eq!(window, vec![11, 11, 15]);
}

#[test]
fn windowed_decimates_by_chunk_last() {
    let stock = sample_stock();
    // Chunks of two: [10, 12] [11, 11] [15] -> last of each.
    assert_eq!(stock.get_recent_history_scaled(10, 2), vec![12, 11, 15]);
    // Chunks of three: [10, 12, 11] [11, 15].
    assert_eq!(stock.get_recent_history_scaled(10, 3), vec![11, 15]);
}

#[test]
fn windowed_short_history_is_identity() {
    let stock = sample_stock();
    let window = stock.get_recent_history_scaled(6, 1);
    assert_eq!(window, vec![10, 12, 11, 11, 15]);
}

#[test]
fn windowed_single_sample_history() {
    let stock = Stock::from_init_value(10);
    assert_eq!(stock.get_recent_history_scaled(5, 3), vec![10]);
    assert_eq!(stock.get_recent_history_scaled(2, 1), vec![10]);
}

#[test]
fn render_single_sample_paints_nothing() {
    let width = 4usize;
    let height = 8u32;
    let mut buffer = make_buffer(width, height, BLACK);
    let vals = vec![42i64];
    let range = ValueRange { min: 42, max: 42 };
    render_deltas(&mut buffer, width, height, &vals, range);
    assert!(buffer.iter().all(|p| *p == BLACK));
}

#[test]
fn global_range_bounds_every_sample() {
    let stock = sample_stock();
    let range = stock.global_range();
    assert_eq!(range.min, 10);
    assert_eq!(range.max, 15);
    for v in &stock.history {
        assert!(range.min <= *v && *v <= range.max);
    }
}

#[test]
fn global_range_degenerate_history() {
    let stock = Stock::from_init_value(-7);
    let range = stock.global_range();
    assert_eq!(range.min, -7);
    assert_eq!(range.max, -7);
}

#[test]
fn vec_extremes_are_attained() {
    let v = vec![3i64, -2, 9, -2, 9];
    assert_eq!(vec_min(&v), -2);
    assert_eq!(vec_max(&v), 9);
}

#[test]
fn latest_and_empty_history() {
    let stock = sample_stock();
    assert_eq!(stock.latest(), Ok(15));
    let empty = Stock { history: vec![] };
    assert_eq!(empty.latest(), Err(MarketError::EmptyHistory));
}

#[test]
fn projection_matches_formula() {
    let range = ValueRange { min: 10, max: 15 };
    assert_eq!(value_to_row(10, range, 100), 100);
    assert_eq!(value_to_row(12, range, 100), 60);
    assert_eq!(value_to_row(11, range, 100), 80);
    assert_eq!(value_to_row(15, range, 100), 0);
}

#[test]
fn projection_is_monotone_and_degenerate_range_is_mid_frame() {
    let range = ValueRange { min: 0, max: 64 };
    let mut prev = value_to_row(0, range, 480);
    for v in 1..=64i64 {
        let row = value_to_row(v, range, 480);
        assert!(row <= prev);
        prev = row;
    }
    let flat = ValueRange { min: 5, max: 5 };
    assert_eq!(value_to_row(5, flat, 100), 50);
}

#[test]
fn buy_succeeds_strictly_under_cash() {
    // Fixed-point: 100.00 in cash, price 99.99.
    let mut player = PlayerData::new(10_000);
    assert_eq!(player.buy(9_999), Ok(()));
    assert_eq!(player.money, 1);
    assert_eq!(player.shares[0], 1);
}

#[test]
fn buy_rejects_price_equal_to_cash() {
    let mut player = PlayerData::new(10_000);
    assert_eq!(player.buy(10_000), Err(MarketError::InsufficientFunds));
    assert_eq!(player.money, 10_000);
    assert_eq!(player.shares[0], 0);
}

#[test]
fn sell_without_shares_fails_unchanged() {
    let mut player = PlayerData::new(10_000);
    assert_eq!(player.sell(123), Err(MarketError::NoSharesHeld));
    assert_eq!(player.money, 10_000);
    assert_eq!(player.shares[0], 0);
}

#[test]
fn buy_then_sell_round_trip() {
    let mut player = PlayerData::new(10_000);
    assert_eq!(player.buy(2_500), Ok(()));
    assert_eq!(player.sell(3_000), Ok(()));
    assert_eq!(player.money, 10_500);
    assert_eq!(player.shares[0], 0);
}

#[test]
fn valuation_sums_shares_times_price() {
    let player = PlayerData { money: 1_000, shares: vec![2] };
    let prices = vec![500i64];
    assert_eq!(player.get_total_shares_value(&prices), 1_000);
    assert_eq!(player.get_total_value(&prices), 2_000);
}

#[test]
fn valuation_with_no_shares_is_cash_only() {
    let player = PlayerData::new(777);
    let prices = vec![123i64];
    assert_eq!(player.get_total_shares_value(&prices), 0);
    assert_eq!(player.get_total_value(&prices), 777);
}

#[test]
fn render_scenario_paints_directional_spans() {
    let width = 10usize;
    let height = 100u32;
    let mut buffer = make_buffer(width, height, BLACK);
    assert_eq!(buffer.len(), 1000);
    assert!(buffer.iter().all(|p| *p == BLACK));

    let vals = vec![10i64, 12, 11, 11, 15];
    let range = ValueRange { min: 10, max: 15 };
    render_deltas(&mut buffer, width, height, &vals, range);

    // Column 0, pair 10 -> 12 (up): green from row 60 down to row 99.
    assert_eq!(buffer[60 * width], GREEN);
    assert_eq!(buffer[99 * width], GREEN);
    assert_eq!(buffer[59 * width], BLACK);
    // Column 1, pair 12 -> 11 (down): red from row 60 to row 79.
    assert_eq!(buffer[60 * width + 1], RED);
    assert_eq!(buffer[79 * width + 1], RED);
    assert_eq!(buffer[80 * width + 1], BLACK);
    // Column 2, pair 11 -> 11 (flat): nothing painted.
    for y in 0..100usize {
        assert_eq!(buffer[y * width + 2], BLACK);
    }
    // Column 3, pair 11 -> 15 (up): green from row 0 to row 79.
    assert_eq!(buffer[3], GREEN);
    assert_eq!(buffer[79 * width + 3], GREEN);
    assert_eq!(buffer[80 * width + 3], BLACK);
    // Columns past the last pair stay untouched.
    for y in 0..100usize {
        for x in 4..10usize {
            assert_eq!(buffer[y * width + x], BLACK);
        }
    }
}

#[test]
fn labels_follow_priority_order() {
    let labels = place_price_labels(12, 14, 11, 15, 10, 100);
    assert_eq!(labels.current_y, 60);
    assert_eq!(labels.local_high_y, Some(20));
    assert_eq!(labels.all_time_high_y, 0);
    assert_eq!(labels.local_low_y, Some(72));
    assert_eq!(labels.all_time_low_y, 88);
}

#[test]
fn coinciding_extremes_are_suppressed() {
    let labels = place_price_labels(15, 15, 10, 15, 10, 100);
    assert_eq!(labels.local_high_y, None);
    assert_eq!(labels.local_low_y, None);
    // The current price projects to row 0; the all-time high is pushed above it.
    assert_eq!(labels.current_y, 0);
    assert_eq!(labels.all_time_high_y, -12);
    assert_eq!(labels.all_time_low_y, 88);
}

#[test]
fn labels_keep_minimum_gap() {
    let labels = place_price_labels(12, 13, 11, 15, 10, 100);
    let lh = labels.local_high_y.unwrap();
    let ll = labels.local_low_y.unwrap();
    assert!(lh + 12 <= labels.current_y);
    assert!(labels.all_time_high_y + 12 <= lh);
    assert!(labels.current_y + 12 <= ll);
    assert!(ll + 12 <= labels.all_time_low_y);
}

#[test]
fn bottom_clamp_keeps_current_label_on_screen() {
    // The minimum projects to row == height; the label is pulled up.
    let labels = place_price_labels(10, 15, 10, 15, 10, 100);
    assert_eq!(labels.current_y, 88);
}

#[test]
fn message_stack_positions() {
    assert_eq!(message_y(0), 135);
    assert_eq!(message_y(1), 155);
    assert_eq!(message_y(2), 175);
}

#[test]
fn message_lifecycle_45_frames() {
    let mut msgs = vec![new_message(MarketError::InsufficientFunds.message(), RED)];
    assert_eq!(msgs[0].ticks_remaining, 45);
    for _ in 0..44 {
        msgs = tick_messages(msgs);
    }
    assert_eq!(msgs.len(), 1);
    assert_eq!(msgs[0].ticks_remaining, 1);
    msgs = tick_messages(msgs);
    assert!(msgs.is_empty());
}

#[test]
fn message_order_is_kept() {
    let msgs = vec![
        TransientMessage { text: "first".to_owned(), color: RED, ticks_remaining: 2 },
        TransientMessage { text: "expiring".to_owned(), color: WHITE, ticks_remaining: 1 },
        TransientMessage { text: "second".to_owned(), color: RED, ticks_remaining: 5 },
    ];
    let after = tick_messages(msgs);
    assert_eq!(after.len(), 2);
    assert_eq!(after[0].text, "first");
    assert_eq!(after[0].ticks_remaining, 1);
    assert_eq!(after[1].text, "second");
    assert_eq!(after[1].ticks_remaining, 4);
}

#[test]
fn error_messages_have_fixed_texts() {
    assert_eq!(
        MarketError::InsufficientFunds.message(),
        "NOT ENOUGH MONEY TO BUY A SHARE"
    );
    assert_eq!(MarketError::NoSharesHeld.message(), "DONT HAVE A SHARE TO SELL");
}

#[test]
fn new_stock_starts_in_the_seeded_band() {
    for _ in 0..50 {
        let stock = Stock::new();
        assert_eq!(stock.history.len(), 1);
        let v = stock.history[0];
        assert!((100..=99_900_000).contains(&v));
    }
}

#[test]
fn next_appends_one_bounded_step() {
    let steps: [i64; 9] = [12, 25, 50, 100, 200, 400, 800, 1_600, 3_200];
    let mut stock = Stock::from_init_value(50_000);
    for i in 0..200usize {
        let prev = *stock.history.last().unwrap();
        stock.next();
        assert_eq!(stock.history.len(), i + 2);
        let curr = *stock.history.last().unwrap();
        let delta = (curr - prev).abs();
        assert!(steps.contains(&delta), "unexpected step {delta}");
    }
}
