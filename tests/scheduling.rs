use task_scheduler::engine::{
    scaled_wait_millis, time_to_sleep_before_start, total_elapsed_secs, EngineError,
};
use task_scheduler::input::{
    parse_clock_string_to_naive_datetime, parse_input, InputError, FIELD_COUNT,
};
use task_scheduler::program::{
    apply_delta_to_execution_time, apply_delta_to_start_moment, generate_randomized_delta,
    has_duplicates, needs_day_shift, schedule_pass, schedule_programs, shift_by_one_day,
    sort_by_default_start, start_minutes, PassOutcome, ScheduleError, ScheduledProgram,
    UnscheduledProgram, SECONDS_PER_DAY,
};

const RECORDS: [&str; 8] = [
    "program1,password1,pid123123,06:01,0.3,5,1.5,10,msp1-1,1,0,ac=*-666666",
    "program2,password2,pid123123,07:01,0.3,5,1.5,10,msp1-1,1,0,ac=*-666666",
    "program3,password3,pid123123,07:02,0.3,5,1.5,10,msp1-1,1,0,ac=*-333333",
    "program4,password4,pid123123,08:03,0.3,5,1.5,10,msp1-1,1,0,ac=*-666666",
    "program5,password5,pid123123,16:01,0.3,5,1.5,10,msp1-1,1,0,ac=*-7777",
    "program6,password6,pid123123,16:02,0.3,5,1.5,10,msp1-1,1,0,ac=*-666555",
    "program7,password7,pid123123,17:03,0.3,5,1.5,10,msp1-1,1,0,ac=*-7777",
    "program8,password8,pid123123,17:04,0.3,5,1.5,10,msp1-1,1,0,ac=*-666555",
];

fn template(name: &str, group: &str, start: u64, jitter: u32, secs: u64, secs_jitter: u32) -> UnscheduledProgram {
    UnscheduledProgram {
        name: name.to_string(),
        default_start_time: start,
        start_time_randomization_secs: jitter,
        default_execution_secs: secs,
        execution_time_randomization_secs: secs_jitter,
        program_id: group.to_string(),
    }
}

fn scheduled(group: &str, start: u64) -> ScheduledProgram {
    let t = template("x", group, start, 0, 60, 0);
    ScheduledProgram {
        name: t.name.clone(),
        real_start_time: start,
        real_execution_duration: 60,
        program_id: t.program_id.clone(),
        created_from: t,
    }
}

fn future_start() -> u64 {
    let t = (chrono::Utc::now().timestamp() as u64) + 2 * SECONDS_PER_DAY;
    t - t % 60
}

fn assert_invariants(s: &Vec<ScheduledProgram>) {
    for i in 0..s.len() {
        for j in 0..s.len() {
            if i == j {
                continue;
            }
            assert_ne!(s[i].real_start_time / 60, s[j].real_start_time / 60);
            if s[i].program_id == s[j].program_id {
                let gap = s[i].real_start_time.abs_diff(s[j].real_start_time);
                assert!(gap > 3600);
            }
        }
    }
}

#[test]
fn parse_input_splits_twelve_fields() {
    let fields = parse_input(RECORDS[2]).unwrap();
    assert_eq!(fields.len(), FIELD_COUNT);
    assert_eq!(fields[0], b"program3".to_vec());
    assert_eq!(fields[3], b"07:02".to_vec());
    assert_eq!(fields[11], b"ac=*-333333".to_vec());
}

#[test]
fn parse_input_keeps_empty_fields() {
    let fields = parse_input(",,,,,,,,,,,").unwrap();
    assert_eq!(fields.len(), 12);
    assert!(fields.iter().all(|f| f.is_empty()));
}

#[test]
fn parse_input_rejects_wrong_field_count() {
    assert_eq!(parse_input("a,b,c"), Err(InputError::FieldCount(3)));
    assert_eq!(parse_input(""), Err(InputError::FieldCount(1)));
}

#[test]
fn clock_time_on_given_day() {
    assert_eq!(parse_clock_string_to_naive_datetime("07:02", 0), Ok(25320));
    assert_eq!(parse_clock_string_to_naive_datetime("00:00", 86400), Ok(86400));
    assert_eq!(parse_clock_string_to_naive_datetime("7:2x", 0), Err(InputError::InvalidClock));
    assert_eq!(parse_clock_string_to_naive_datetime("25:00", 0), Err(InputError::InvalidClock));
    assert_eq!(parse_clock_string_to_naive_datetime("01:00", -86400), Err(InputError::BeforeEpoch));
}

#[test]
fn template_from_fields() {
    let fields = parse_input(RECORDS[2]).unwrap();
    let t = UnscheduledProgram::from_fields(&fields, 172800, 1080, 18000, 5400).unwrap();
    assert_eq!(t.name, "program3");
    assert_eq!(t.program_id, "ac=*-333333");
    assert_eq!(t.default_start_time, 172800 + 25320);
    assert_eq!(t.start_time_randomization_secs, 1080);
    assert_eq!(t.default_execution_secs, 18000);
    assert_eq!(t.execution_time_randomization_secs, 5400);
}

#[test]
fn template_from_fields_rejects_bad_text() {
    let mut fields = parse_input(RECORDS[0]).unwrap();
    fields[0] = vec![0xff, 0xfe];
    assert_eq!(
        UnscheduledProgram::from_fields(&fields, 0, 0, 0, 0).unwrap_err(),
        InputError::InvalidText
    );
}

#[test]
fn template_for_today_keeps_clock_time() {
    let fields = parse_input(RECORDS[2]).unwrap();
    let t = UnscheduledProgram::from(&fields, 1080, 18000, 5400).unwrap();
    assert_eq!(t.default_start_time % 86400, 25320);
}

#[test]
fn random_delta_stays_in_window() {
    for _ in 0..200 {
        let d = generate_randomized_delta(1080);
        assert!((-1080..=1080).contains(&d));
    }
    assert_eq!(generate_randomized_delta(0), 0);
}

#[test]
fn random_delta_varies() {
    let first = generate_randomized_delta(1_000_000);
    let differs = (0..50).any(|_| generate_randomized_delta(1_000_000) != first);
    assert!(differs);
}

#[test]
fn start_and_duration_deltas() {
    assert_eq!(apply_delta_to_start_moment(1000, -200), Ok(800));
    assert_eq!(apply_delta_to_start_moment(100, -200), Err(ScheduleError::StartOutOfRange));
    assert_eq!(apply_delta_to_execution_time(18000, 5400), Ok(23400));
    assert_eq!(apply_delta_to_execution_time(18000, -5400), Ok(12600));
    assert_eq!(apply_delta_to_execution_time(u64::MAX, 1), Err(ScheduleError::DurationOutOfRange));
}

#[test]
fn duration_jitter_larger_than_duration_fails() {
    // default 1 h with a draw of -2 h
    assert_eq!(apply_delta_to_execution_time(3600, -7200), Err(ScheduleError::NegativeDuration));
    let t = template("p", "g", future_start(), 0, 3600, 7200);
    for _ in 0..200 {
        match t.duplicate().schedule_program() {
            Ok(p) => assert!(p.real_execution_duration <= 3600 + 7200),
            Err(e) => assert_eq!(e, ScheduleError::NegativeDuration),
        }
    }
}

#[test]
fn zero_jitter_reproduces_defaults() {
    let start = future_start();
    let t = template("p", "g", start, 0, 18000, 0);
    let p = t.schedule_program().unwrap();
    assert_eq!(p.real_start_time, start);
    assert_eq!(p.real_execution_duration, 18000);
    assert_eq!(p.name, "p");
    assert_eq!(p.program_id, "g");
}

#[test]
fn zero_jitter_single_template_schedule() {
    let start = future_start();
    let s = schedule_programs(vec![template("p", "g", start, 0, 18000, 0)]).unwrap();
    assert_eq!(s.len(), 1);
    assert_eq!(s[0].real_start_time, start);
    assert_eq!(s[0].real_execution_duration, 18000);
}

#[test]
fn past_batch_moves_to_next_day() {
    let past = (chrono::Utc::now().timestamp() as u64) - 3 * 3600;
    let s = schedule_programs(vec![
        template("a", "g1", past, 0, 600, 0),
        template("b", "g2", past + 120, 0, 600, 0),
    ])
    .unwrap();
    assert_eq!(s[0].real_start_time, past + SECONDS_PER_DAY);
    assert_eq!(s[1].real_start_time, past + 120 + SECONDS_PER_DAY);
    let now = chrono::Utc::now().timestamp() as u64;
    assert!(s.iter().all(|p| p.real_start_time >= now));
}

#[test]
fn day_shift_decision() {
    assert!(needs_day_shift(99, 100));
    assert!(!needs_day_shift(100, 100));
    assert!(!needs_day_shift(0, -5));
}

#[test]
fn shift_moves_every_template() {
    let shifted = shift_by_one_day(&vec![template("a", "g", 10, 0, 1, 0), template("b", "g", 20, 0, 1, 0)]).unwrap();
    assert_eq!(shifted[0].default_start_time, 10 + 86400);
    assert_eq!(shifted[1].default_start_time, 20 + 86400);
    assert_eq!(
        shift_by_one_day(&vec![template("a", "g", u64::MAX - 10, 0, 1, 0)]).unwrap_err(),
        ScheduleError::StartOutOfRange
    );
}

#[test]
fn sort_is_stable_by_start() {
    let sorted = sort_by_default_start(vec![
        template("late", "g", 300, 0, 1, 0),
        template("first_tie", "g", 100, 0, 1, 0),
        template("early", "g", 50, 0, 1, 0),
        template("second_tie", "g", 100, 0, 1, 0),
    ]);
    let names: Vec<&str> = sorted.iter().map(|t| t.name.as_str()).collect();
    assert_eq!(names, vec!["early", "first_tie", "second_tie", "late"]);
}

#[test]
fn duplicates_are_found() {
    assert!(!has_duplicates(vec![]));
    assert!(!has_duplicates(vec![1, 2, 3]));
    assert!(has_duplicates(vec![1, 2, 1]));
    assert!(has_duplicates(vec![7, 7]));
}

#[test]
fn start_minutes_truncate() {
    let s = vec![scheduled("g", 119), scheduled("h", 120)];
    assert_eq!(start_minutes(&s), vec![1, 2]);
}

#[test]
fn spacing_keeps_a_distant_draw() {
    let schedule = vec![scheduled("g", 10_000), scheduled("other", 14_000)];
    let candidate = scheduled("g", 13_601);
    let kept = candidate
        .check_against_the_schedule_and_reschedule_if_necessary(&schedule)
        .unwrap();
    assert_eq!(kept.real_start_time, 13_601);
}

#[test]
fn spacing_gives_up_on_a_fixed_close_draw() {
    let schedule = vec![scheduled("g", 10_000)];
    let candidate = scheduled("g", 13_600);
    assert_eq!(
        candidate
            .check_against_the_schedule_and_reschedule_if_necessary(&schedule)
            .unwrap_err(),
        ScheduleError::SpacingRetriesExhausted
    );
}

#[test]
fn pass_reports_collision_and_shift() {
    let start = future_start();
    let same_minute = vec![template("a", "g1", start, 0, 60, 0), template("b", "g2", start + 30, 0, 60, 0)];
    assert!(matches!(schedule_pass(&same_minute, 0), Ok(PassOutcome::Collision(_))));
    let past = vec![template("a", "g1", 1000, 0, 60, 0)];
    assert!(matches!(schedule_pass(&past, 5000), Ok(PassOutcome::ShiftDay)));
}

#[test]
fn minute_collision_never_settles() {
    let start = future_start();
    let s = schedule_programs(vec![template("a", "g1", start, 0, 60, 0), template("b", "g2", start + 30, 0, 60, 0)]);
    assert_eq!(s.unwrap_err(), ScheduleError::PassesExhausted);
}

#[test]
fn eight_record_scenario() {
    let templates: Vec<UnscheduledProgram> = RECORDS
        .iter()
        .map(|r| UnscheduledProgram::from(&parse_input(r).unwrap(), 1080, 18000, 5400).unwrap())
        .collect();
    for _ in 0..5 {
        let s = schedule_programs(templates.clone()).unwrap();
        assert_eq!(s.len(), 8);
        assert_invariants(&s);
        for p in &s {
            assert!(p.real_execution_duration >= 18000 - 5400);
            assert!(p.real_execution_duration <= 18000 + 5400);
        }
        let names: Vec<&str> = s.iter().map(|p| p.name.as_str()).collect();
        assert_eq!(names, vec!["program1", "program2", "program3", "program4", "program5", "program6", "program7", "program8"]);
    }
}

#[test]
fn wait_before_start() {
    assert_eq!(time_to_sleep_before_start(1000, 400), Ok(600));
    assert_eq!(time_to_sleep_before_start(1000, 1000), Ok(0));
    assert_eq!(time_to_sleep_before_start(1000, 1001), Err(EngineError::StartInPast));
    assert_eq!(time_to_sleep_before_start(u64::MAX, -1), Ok(u64::MAX));
}

#[test]
fn waits_shrink_by_speedup() {
    assert_eq!(scaled_wait_millis(18000, 100000), 180);
    assert_eq!(scaled_wait_millis(7, 1), 7000);
    assert_eq!(scaled_wait_millis(1, 3), 333);
}

#[test]
fn total_elapsed_spans_first_start_to_last_end() {
    let s = vec![scheduled("a", 1000), scheduled("b", 5000)];
    assert_eq!(total_elapsed_secs(&s), Ok(4060));
    assert_eq!(total_elapsed_secs(&vec![]), Err(EngineError::EmptySchedule));
    let backwards = vec![scheduled("a", 5000), scheduled("b", 1000)];
    assert_eq!(total_elapsed_secs(&backwards), Ok(4060));
    let mut long_first = scheduled("a", 1000);
    long_first.real_execution_duration = 10_000;
    assert_eq!(total_elapsed_secs(&vec![long_first, scheduled("b", 2000)]), Ok(10_000));
    let mut far = scheduled("a", u64::MAX - 10);
    far.real_execution_duration = 11;
    assert_eq!(total_elapsed_secs(&vec![far]), Err(EngineError::EndOutOfRange));
}

#[test]
fn draw_with_given_offsets() {
    let t = template("p", "g", 10_000, 1080, 18000, 5400);
    let p = t.duplicate().schedule_program_with_deltas(-1080, 5400).unwrap();
    assert_eq!(p.real_start_time, 8920);
    assert_eq!(p.real_execution_duration, 23400);
    assert_eq!(p.name, "p");
    let short = template("q", "g", 10_000, 0, 3600, 7200);
    assert_eq!(
        short.duplicate().schedule_program_with_deltas(0, -7200).unwrap_err(),
        ScheduleError::NegativeDuration
    );
    assert_eq!(
        short.schedule_program_with_deltas(-20_000, 0).unwrap_err(),
        ScheduleError::StartOutOfRange
    );
}

#[test]
fn empty_batch_schedules_to_nothing() {
    assert!(matches!(schedule_pass(&vec![], 0), Ok(PassOutcome::Done(s)) if s.is_empty()));
    assert_eq!(schedule_programs(vec![]).unwrap().len(), 0);
}

#[test]
fn fixed_batch_is_done_in_one_pass() {
    let start = future_start();
    let batch = vec![
        template("a", "g1", start, 0, 600, 0),
        template("b", "g1", start + 3601, 0, 700, 0),
        template("c", "g2", start + 3660, 0, 800, 0),
    ];
    match schedule_pass(&batch, 0) {
        Ok(PassOutcome::Done(s)) => {
            let starts: Vec<u64> = s.iter().map(|p| p.real_start_time).collect();
            assert_eq!(starts, vec![start, start + 3601, start + 3660]);
            assert_eq!(s[2].real_execution_duration, 800);
        }
        _ => panic!("a fixed, valid batch must be accepted"),
    }
}

#[test]
fn collision_carries_the_draw() {
    let start = future_start();
    let batch = vec![template("a", "g1", start, 0, 60, 0), template("b", "g2", start + 59, 0, 60, 0)];
    match schedule_pass(&batch, 0) {
        Ok(PassOutcome::Collision(s)) => {
            assert_eq!(s.len(), 2);
            assert_eq!(s[0].real_start_time / 60, s[1].real_start_time / 60);
        }
        _ => panic!("two starts in one minute must collide"),
    }
}
