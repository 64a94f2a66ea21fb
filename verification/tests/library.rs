use mtop::connections::{connections_from_lsof, count_connections, parse_u32_chars, pid_on_line, split_fields};
use mtop::controls::{key_action, scroll_down, scroll_up, Key, KeyAction};
use mtop::estimate::{cpu_price_of_lowered, cpu_tdp_of_lowered, estimate_cpu_cost, estimate_cpu_tdp};
use mtop::history::{push_sample, sum_counters};
use mtop::layout::{core_column_split, core_spark_len, memory_spark_width, network_spark_width, stress_clock, visible_rows};
use mtop::prices::{next_price_step, price_load_start, PriceEvent, PriceLoad, PriceSource};
use mtop::ranking::{cost_rank_key, rank_by_key, top_network_consumers};
use mtop::sparkline::{render_dot_line, sparkline_from_levels, sparkline_window_start};
use mtop::stress::{remaining_from_elapsed, stress_plan, StressTest, StressToggle, STRESS_MAX_SECS};
use mtop::text::{chars_of, contains_chars, first_chars};

fn chars(s: &str) -> Vec<char> {
    s.chars().collect()
}

// Prices and power estimates from the model name.

#[test]
fn apple_prices_follow_the_tier() {
    assert_eq!(estimate_cpu_cost("Apple M2 Ultra"), 3000);
    assert_eq!(estimate_cpu_cost("Apple M3 Max"), 1500);
    assert_eq!(estimate_cpu_cost("Apple M1 Pro"), 800);
    assert_eq!(estimate_cpu_cost("Apple M4"), 400);
}

#[test]
fn intel_prices_follow_the_tier() {
    assert_eq!(estimate_cpu_cost("Intel(R) Core(TM) i9-13900K"), 600);
    assert_eq!(estimate_cpu_cost("Intel(R) Xeon(R) Gold 6248"), 600);
    assert_eq!(estimate_cpu_cost("Intel(R) Core(TM) i7-8700"), 400);
    assert_eq!(estimate_cpu_cost("Intel(R) Core(TM) i5-8400"), 250);
    assert_eq!(estimate_cpu_cost("Intel(R) Core(TM) i3-8100"), 150);
}

#[test]
fn amd_prices_follow_the_tier() {
    assert_eq!(estimate_cpu_cost("AMD Ryzen 9 5950X"), 500);
    assert_eq!(estimate_cpu_cost("AMD Ryzen Threadripper"), 500);
    assert_eq!(estimate_cpu_cost("AMD Ryzen 7 3700X"), 350);
    assert_eq!(estimate_cpu_cost("AMD Ryzen 5 3600"), 200);
    assert_eq!(estimate_cpu_cost("AMD Ryzen 5 7600X 6-Core Processor"), 200);
    // the Ryzen series decides before digits in the model number
    assert_eq!(estimate_cpu_cost("AMD Ryzen 7 9700X"), 350);
    assert_eq!(estimate_cpu_cost("AMD Ryzen 9 7950X"), 500);
    // without a series, the digits decide
    assert_eq!(estimate_cpu_cost("AMD EPYC 7763"), 350);
    assert_eq!(estimate_cpu_cost("AMD EPYC 9654"), 500);
    assert_eq!(estimate_cpu_cost("AMD EPYC 5"), 200);
    assert_eq!(estimate_cpu_cost("AMD Athlon 3000G"), 300);
}

#[test]
fn unknown_cpu_gets_default_price_and_power() {
    assert_eq!(estimate_cpu_cost("Unknown CPU"), 300);
    assert_eq!(estimate_cpu_tdp("Unknown CPU"), 65);
    assert_eq!(estimate_cpu_cost(""), 300);
}

#[test]
fn matching_ignores_case() {
    assert_eq!(estimate_cpu_cost("APPLE M2 MAX"), 1500);
    assert_eq!(estimate_cpu_tdp("INTEL CORE I9"), 125);
}

#[test]
fn intel_without_a_tier_falls_through_to_amd_rules_and_default() {
    // "intel" with no i3/i5/i7/i9/xeon: the AMD rules do not apply, so the default price
    assert_eq!(estimate_cpu_cost("Intel Pentium Gold"), 300);
    // an Apple name wins over everything after it
    assert_eq!(estimate_cpu_cost("apple intel i9"), 400);
    // "m1" anywhere counts as Apple Silicon
    assert_eq!(estimate_cpu_cost("amd hm1 ryzen 9"), 400);
}

#[test]
fn power_estimates_follow_the_tier() {
    assert_eq!(estimate_cpu_tdp("Apple M2 Ultra"), 60);
    assert_eq!(estimate_cpu_tdp("Apple M2 Max"), 40);
    assert_eq!(estimate_cpu_tdp("Apple M2 Pro"), 30);
    assert_eq!(estimate_cpu_tdp("Apple M2"), 20);
    assert_eq!(estimate_cpu_tdp("Intel Xeon"), 125);
    assert_eq!(estimate_cpu_tdp("Intel i7"), 65);
    assert_eq!(estimate_cpu_tdp("Intel i5"), 65);
    assert_eq!(estimate_cpu_tdp("Intel i3"), 51);
    assert_eq!(estimate_cpu_tdp("AMD Ryzen 9"), 105);
    assert_eq!(estimate_cpu_tdp("AMD Ryzen 7"), 65);
    assert_eq!(estimate_cpu_tdp("AMD Ryzen 5"), 65);
    // power is read from the digits: a 9 anywhere means the top tier
    assert_eq!(estimate_cpu_tdp("AMD Ryzen 5 9600X"), 105);
    assert_eq!(estimate_cpu_tdp("AMD Ryzen 7 5800X3D"), 65);
    assert_eq!(estimate_cpu_tdp("AMD Ryzen 9 5900X"), 105);
    assert_eq!(estimate_cpu_tdp("AMD EPYC 9654"), 105);
    assert_eq!(estimate_cpu_tdp("AMD Athlon 3000G"), 65);
}

#[test]
fn lowered_names_are_matched_as_given() {
    assert_eq!(cpu_price_of_lowered("apple m2 max"), 1500);
    // the lowered variant does not lowercase again
    assert_eq!(cpu_price_of_lowered("APPLE M2 MAX"), 300);
    assert_eq!(cpu_tdp_of_lowered("intel i3"), 51);
}

// Substrings and text.

#[test]
fn substring_search() {
    assert!(contains_chars(&chars("hello world"), &chars("o w")));
    assert!(contains_chars(&chars("abc"), &chars("")));
    assert!(contains_chars(&chars("abc"), &chars("abc")));
    assert!(!contains_chars(&chars("ab"), &chars("abc")));
    assert!(!contains_chars(&chars("abcabd"), &chars("abe")));
}

#[test]
fn chars_and_prefixes() {
    assert_eq!(chars_of("héllo"), vec!['h', 'é', 'l', 'l', 'o']);
    assert_eq!(first_chars("administrator", 8), "administ");
    assert_eq!(first_chars("root", 8), "root");
    assert_eq!(first_chars("ünïcödé_user", 8), "ünïcödé_");
    assert_eq!(first_chars("", 8), "");
}

// Connection counting from lsof output.

#[test]
fn split_fields_like_split_whitespace() {
    let f = split_fields(&chars("  firefox   1234 user  IPv4\t\u{3000}x "));
    let expected: Vec<Vec<char>> = vec![chars("firefox"), chars("1234"), chars("user"), chars("IPv4"), chars("x")];
    assert_eq!(f, expected);
    assert!(split_fields(&chars("   ")).is_empty());
}

#[test]
fn parse_u32_like_str_parse() {
    assert_eq!(parse_u32_chars(&chars("1234")), Some(1234));
    assert_eq!(parse_u32_chars(&chars("+7")), Some(7));
    assert_eq!(parse_u32_chars(&chars("4294967295")), Some(u32::MAX));
    assert_eq!(parse_u32_chars(&chars("4294967296")), None);
    assert_eq!(parse_u32_chars(&chars("")), None);
    assert_eq!(parse_u32_chars(&chars("+")), None);
    assert_eq!(parse_u32_chars(&chars("-1")), None);
    assert_eq!(parse_u32_chars(&chars("12a")), None);
    assert_eq!(parse_u32_chars(&chars("99999999999x")), None);
    for s in ["0", "+0", "00042", "-0", "1_0", " 1"] {
        assert_eq!(parse_u32_chars(&chars(s)), s.parse::<u32>().ok(), "{}", s);
    }
}

#[test]
fn pid_is_the_second_word() {
    assert_eq!(pid_on_line(&chars("chrome 4321 alice 12u IPv4")), Some(4321));
    assert_eq!(pid_on_line(&chars("chrome")), None);
    assert_eq!(pid_on_line(&chars("COMMAND PID USER")), None);
}

#[test]
fn connections_are_counted_per_pid_after_the_header() {
    let out = "COMMAND   PID USER FD TYPE\n\
               firefox  100 me 1u IPv4\n\
               firefox  100 me 2u IPv4\r\n\
               sshd     22 root 3u IPv6\n\
               bad      x  me\n\
               \n\
               curl 7";
    let m = count_connections(&chars(out));
    assert_eq!(m.len(), 3);
    assert_eq!(m.get(&100), Some(&2));
    assert_eq!(m.get(&22), Some(&1));
    assert_eq!(m.get(&7), Some(&1));
}

#[test]
fn header_line_is_never_counted() {
    let m = count_connections(&chars("proc 5 x\nproc 5 y\n"));
    assert_eq!(m.get(&5), Some(&1));
    assert!(count_connections(&chars("")).is_empty());
    assert!(count_connections(&chars("only 9 header")).is_empty());
}

#[test]
fn lsof_bytes_must_be_utf8() {
    let m = connections_from_lsof(b"H\na 1\nb 1\n".to_vec());
    assert_eq!(m.get(&1), Some(&2));
    let bad = vec![b'H', b'\n', b'a', b' ', b'1', 0xff, b'\n', b'b', b' ', b'2'];
    assert!(connections_from_lsof(bad).is_empty());
}

// Ranking.

#[test]
fn rank_by_key_is_descending_and_stable() {
    let keys = vec![5, 9, 5, 1, 9];
    assert_eq!(rank_by_key(&keys, 10), vec![1, 4, 0, 2, 3]);
    assert_eq!(rank_by_key(&keys, 2), vec![1, 4]);
    assert_eq!(rank_by_key(&keys, 0), Vec::<usize>::new());
    assert_eq!(rank_by_key(&vec![], 5), Vec::<usize>::new());
}

#[test]
fn cost_keys_order_like_the_costs() {
    let costs = [0.0f64, 1.5, 100.25, -2.0, -0.5, 1e300, f64::MIN_POSITIVE];
    let keys: Vec<u64> = costs.iter().map(|c| cost_rank_key(c.to_bits())).collect();
    for i in 0..costs.len() {
        for j in 0..costs.len() {
            assert_eq!(keys[i] < keys[j], costs[i] < costs[j], "{} {}", costs[i], costs[j]);
        }
    }
    let order = rank_by_key(&keys, 3);
    assert_eq!(order, vec![5, 2, 1]);
}

#[test]
fn network_consumers_skip_idle_processes() {
    let conns = vec![0, 3, 1, 0, 3, 7, 2];
    assert_eq!(top_network_consumers(&conns, 5), vec![5, 1, 4, 6, 2]);
    assert_eq!(top_network_consumers(&conns, 2), vec![5, 1]);
    assert_eq!(top_network_consumers(&vec![0, 0], 5), Vec::<usize>::new());
}

// Stress test.

#[test]
fn stress_plan_uses_a_quarter_of_memory_within_bounds() {
    // 16 GiB of RAM: a quarter is 4 GiB, capped at 1 GiB
    assert_eq!(stress_plan(16 << 30, 8), (8, 1 << 30));
    // 512 MiB: a quarter is 128 MiB, raised to 256 MiB
    assert_eq!(stress_plan(512 << 20, 0), (1, 256 << 20));
    // 2 GiB: a quarter is 512 MiB
    assert_eq!(stress_plan(2 << 30, 4), (4, 512 << 20));
    // 8 MiB: raised to 256 MiB
    assert_eq!(stress_plan(8 << 20, 1), (1, 256 << 20));
    // 3 GiB: a quarter is 768 MiB
    assert_eq!(stress_plan(3 << 30, 2), (2, 768 << 20));
    assert_eq!(stress_plan(u64::MAX, 2), (2, 1 << 30));
}

#[test]
fn stress_remaining_counts_down_to_zero() {
    assert_eq!(remaining_from_elapsed(60, 0), 60);
    assert_eq!(remaining_from_elapsed(60, 45), 15);
    assert_eq!(remaining_from_elapsed(60, 60), 0);
    assert_eq!(remaining_from_elapsed(60, 3600), 0);
}

#[test]
fn stress_test_lifecycle() {
    let mut st = StressTest::new();
    assert_eq!(st.max_secs, STRESS_MAX_SECS);
    assert_eq!(st.max_secs, 60);
    assert_eq!(st.stress_remaining_secs(), None);
    assert_eq!(st.toggle_action(), StressToggle::Start);
    assert!(!st.time_is_up());
    st.begin(4, 1 << 28);
    assert!(st.running);
    assert_eq!(st.cpu_threads, 4);
    assert_eq!(st.mem_bytes, 1 << 28);
    assert_eq!(st.toggle_action(), StressToggle::Stop);
    let left = st.stress_remaining_secs().unwrap();
    assert!(left <= 60 && left >= 59);
    assert!(!st.time_is_up());
    // a second start while running changes nothing
    st.begin(1, 1);
    assert_eq!(st.cpu_threads, 4);
    st.end();
    assert!(!st.running);
    assert_eq!(st.cpu_threads, 0);
    assert_eq!(st.mem_bytes, 0);
    assert!(st.started_at.is_none());
    assert_eq!(st.stress_remaining_secs(), None);
}

#[test]
fn stress_is_over_once_its_time_has_passed() {
    let mut st = StressTest::new();
    assert!(!st.time_is_up_after(100));
    st.begin(2, 1 << 28);
    assert!(!st.time_is_up_after(0));
    assert!(!st.time_is_up_after(59));
    assert!(st.time_is_up_after(60));
    assert!(st.time_is_up_after(61));
    st.end();
    assert!(!st.time_is_up_after(60));
}

#[test]
fn stress_time_runs_out() {
    let mut st = StressTest::new();
    st.max_secs = 0;
    st.begin(1, 1);
    assert_eq!(st.stress_remaining_secs(), Some(0));
    assert!(st.time_is_up());
}

// Price loading.

#[test]
fn fresh_cache_is_used_without_fetching() {
    let s = price_load_start();
    assert_eq!(s, PriceLoad::ReadCache);
    let s = next_price_step(s, PriceEvent::CacheRead { loaded: true, from_today: true });
    assert_eq!(s, PriceLoad::Done(PriceSource::Cached));
}

#[test]
fn stale_or_missing_cache_is_refreshed() {
    let s = next_price_step(PriceLoad::ReadCache, PriceEvent::CacheRead { loaded: true, from_today: false });
    assert_eq!(s, PriceLoad::Fetch);
    let s = next_price_step(PriceLoad::ReadCache, PriceEvent::CacheRead { loaded: false, from_today: true });
    assert_eq!(s, PriceLoad::Fetch);
    let s = next_price_step(s, PriceEvent::Fetched { ok: true });
    assert_eq!(s, PriceLoad::Save);
    let s = next_price_step(s, PriceEvent::Saved);
    assert_eq!(s, PriceLoad::Done(PriceSource::Fetched));
}

#[test]
fn failed_fetch_falls_back_to_cache_or_defaults() {
    let s = next_price_step(PriceLoad::Fetch, PriceEvent::Fetched { ok: false });
    assert_eq!(s, PriceLoad::ReadCacheAgain);
    assert_eq!(next_price_step(s, PriceEvent::CacheReread { loaded: true }), PriceLoad::Done(PriceSource::Cached));
    assert_eq!(next_price_step(s, PriceEvent::CacheReread { loaded: false }), PriceLoad::Done(PriceSource::Default));
}

#[test]
fn unrelated_events_change_nothing() {
    assert_eq!(next_price_step(PriceLoad::Save, PriceEvent::Fetched { ok: true }), PriceLoad::Save);
    let done = PriceLoad::Done(PriceSource::Default);
    assert_eq!(next_price_step(done, PriceEvent::Saved), done);
}

// Keys and scrolling.

#[test]
fn keys_map_to_actions() {
    assert_eq!(key_action(Key::Char('q'), false, true), KeyAction::Quit);
    assert_eq!(key_action(Key::Esc, false, true), KeyAction::Quit);
    assert_eq!(key_action(Key::Char('c'), true, true), KeyAction::Quit);
    assert_eq!(key_action(Key::Char('c'), false, true), KeyAction::Nothing);
    assert_eq!(key_action(Key::Char('j'), false, true), KeyAction::ScrollDown);
    assert_eq!(key_action(Key::Down, false, true), KeyAction::ScrollDown);
    assert_eq!(key_action(Key::Char('k'), false, true), KeyAction::ScrollUp);
    assert_eq!(key_action(Key::Up, false, true), KeyAction::ScrollUp);
    assert_eq!(key_action(Key::Char('r'), false, true), KeyAction::Refresh);
    assert_eq!(key_action(Key::Char('t'), false, true), KeyAction::ToggleStress);
    assert_eq!(key_action(Key::Char('x'), false, true), KeyAction::Nothing);
    assert_eq!(key_action(Key::Other, false, true), KeyAction::Nothing);
    assert_eq!(key_action(Key::Char('q'), false, false), KeyAction::Nothing);
}

#[test]
fn scrolling_stays_within_the_table() {
    assert_eq!(scroll_down(0, 3), 1);
    assert_eq!(scroll_down(2, 3), 2);
    assert_eq!(scroll_down(0, 0), 0);
    assert_eq!(scroll_down(0, 1), 0);
    assert_eq!(scroll_up(0), 0);
    assert_eq!(scroll_up(5), 4);
    assert_eq!(scroll_up(scroll_down(1, 10)), 1);
}

// Sparklines and sizes.

#[test]
fn dot_line() {
    assert_eq!(render_dot_line(3), "···");
    assert_eq!(render_dot_line(0), "");
}

#[test]
fn sparkline_fills_its_width_with_dots() {
    assert_eq!(sparkline_from_levels(&vec![0, 3, 7, 12], 4), "▁▄██");
    assert_eq!(sparkline_from_levels(&vec![0, 7], 10), "▁█········");
    assert_eq!(sparkline_from_levels(&vec![], 3), "···");
    assert_eq!(sparkline_from_levels(&vec![1, 2], 6), "▂▃····");
    let one = sparkline_from_levels(&vec![4], 5);
    assert_eq!(one, "▅····");
    assert_eq!(one.chars().count(), 5);
    assert_eq!(one.chars().count(), render_dot_line(5).chars().count());
    // more levels than the width: all bars, no dots
    assert_eq!(sparkline_from_levels(&vec![0, 1, 2], 2), "▁▂▃");
}

#[test]
fn rank_keys_order_bit_patterns() {
    let pos_small = cost_rank_key(1);
    let pos_large = cost_rank_key(1 << 62);
    let neg_small = cost_rank_key((1 << 63) | 1);
    let neg_large = cost_rank_key(u64::MAX);
    assert!(pos_small < pos_large);
    assert!(neg_large < neg_small);
    assert!(neg_small < pos_small);
}

#[test]
fn sparkline_shows_the_last_samples() {
    assert_eq!(sparkline_window_start(60, 20), 40);
    assert_eq!(sparkline_window_start(60, 60), 0);
    assert_eq!(sparkline_window_start(10, 60), 0);
}

#[test]
fn panel_sizes() {
    assert_eq!(core_spark_len(40, 30), 18);
    assert_eq!(core_spark_len(10, 50), 8);
    assert_eq!(core_spark_len(100, 90), 20);
    assert_eq!(core_column_split(7), 4);
    assert_eq!(core_column_split(8), 4);
    assert_eq!(core_column_split(0), 0);
    assert_eq!(memory_spark_width(50), 46);
    assert_eq!(memory_spark_width(3), 0);
    assert_eq!(network_spark_width(40, 5), 30);
    assert_eq!(network_spark_width(5, 5), 0);
    assert_eq!(visible_rows(100, 10, 23), (10, 30));
    assert_eq!(visible_rows(15, 10, 23), (10, 15));
    assert_eq!(visible_rows(5, 10, 23), (5, 5));
    assert_eq!(visible_rows(5, 0, 2), (0, 0));
}

#[test]
fn stress_clock_splits_minutes_and_seconds() {
    assert_eq!(stress_clock(60), (1, 0));
    assert_eq!(stress_clock(59), (0, 59));
    assert_eq!(stress_clock(125), (2, 5));
}

// Histories.

#[test]
fn histories_keep_their_length() {
    let mut h = vec![1, 2, 3];
    push_sample(&mut h, 4);
    assert_eq!(h, vec![2, 3, 4]);
    let mut f = vec![0.0f32; 60];
    push_sample(&mut f, 12.5);
    assert_eq!(f.len(), 60);
    assert_eq!(f[59], 12.5);
}

#[test]
fn counters_are_summed() {
    assert_eq!(sum_counters(&vec![1, 2, 3]), Some(6));
    assert_eq!(sum_counters(&vec![]), Some(0));
    assert_eq!(sum_counters(&vec![u64::MAX, 1]), None);
}
