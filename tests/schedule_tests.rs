use edt_bot::calendar::{timestamp_date, Date, Time, MAX_DAY, MIN_DAY};
use edt_bot::category::Category;
use edt_bot::discord::{next_week_query, ConfigError, Data};
use edt_bot::events::{edt_query, edt_response, event_of, events_of, EdtError};
use edt_bot::models::Course;
use edt_bot::publish::{failure_notice, publish_plan, render_course, ChannelOp, RECENT_LIMIT};
use edt_bot::schedule::{QuerySession, Schedule, Stage, StoreAction, StoreError, StoreEvent};

// 2024-03-04, a Monday.
const MONDAY_2024_03_04: i32 = 738949;

fn course(id: i32, days: i32, category: Category, subject: &str, bts: bool) -> Course {
    Course {
        id,
        date: Date { days },
        category,
        start: Time { secs: 9 * 3600 },
        end: Time { secs: 12 * 3600 + 30 * 60 },
        subject: subject.to_string(),
        teacher: "M. Martin".to_string(),
        classroom: "B204".to_string(),
        remote: false,
        bts,
    }
}

/// Runs a session against a store that answers each load from `rows_of`.
fn run(mut q: QuerySession, probe_ok: bool, reconnect_ok: bool, rows_of: &dyn Fn(Category) -> Vec<Course>) -> (Vec<StoreAction>, Result<Schedule, StoreError>) {
    let mut actions = Vec::new();
    loop {
        let a = q.action();
        actions.push(a);
        match a {
            StoreAction::Probe => q.on_event(if probe_ok { StoreEvent::Succeeded } else { StoreEvent::Failed }),
            StoreAction::Reconnect => q.on_event(if reconnect_ok { StoreEvent::Succeeded } else { StoreEvent::Failed }),
            StoreAction::Load(c) => q.on_event(StoreEvent::Rows(rows_of(c))),
            StoreAction::Finish => break,
        }
    }
    (actions, q.finish())
}

fn sample_rows(c: Category) -> Vec<Course> {
    match c {
        Category::Dev => vec![course(1, MONDAY_2024_03_04, Category::Dev, "Rust", false)],
        Category::Infra => vec![course(2, MONDAY_2024_03_04 + 4, Category::Infra, "Réseaux", true)],
        _ => vec![],
    }
}

#[test]
fn week_bounds_from_a_wednesday() {
    let (first, last) = Date { days: MONDAY_2024_03_04 + 2 }.week_bounds();
    assert_eq!(first.days, MONDAY_2024_03_04);
    assert_eq!(last.days, MONDAY_2024_03_04 + 6);
    assert_eq!(last.days - first.days, 6);
}

#[test]
fn week_bounds_on_monday_and_sunday() {
    let (first, last) = Date { days: MONDAY_2024_03_04 }.week_bounds();
    assert_eq!((first.days, last.days), (MONDAY_2024_03_04, MONDAY_2024_03_04 + 6));
    let (first, last) = Date { days: MONDAY_2024_03_04 + 6 }.week_bounds();
    assert_eq!((first.days, last.days), (MONDAY_2024_03_04, MONDAY_2024_03_04 + 6));
    let (first, _) = Date { days: 1 }.week_bounds();
    assert_eq!(first.days, 1);
    let (first, last) = Date { days: 0 }.week_bounds();
    assert_eq!((first.days, last.days), (-6, 0));
}

#[test]
fn weekday_counts_from_monday() {
    assert_eq!(Date { days: MONDAY_2024_03_04 }.weekday(), 0);
    assert_eq!(Date { days: MONDAY_2024_03_04 + 4 }.weekday(), 4);
    assert_eq!(Date { days: -1 }.weekday(), 5);
}

#[test]
fn week_scenario_groups_by_category() {
    let q = Schedule::query_week(Date { days: MONDAY_2024_03_04 + 2 });
    assert_eq!(q.schedule.start.days, MONDAY_2024_03_04);
    assert_eq!(q.schedule.end.days, MONDAY_2024_03_04 + 6);
    let (actions, r) = run(q, true, true, &sample_rows);
    assert_eq!(actions, vec![
        StoreAction::Probe,
        StoreAction::Load(Category::Dev),
        StoreAction::Load(Category::Infra),
        StoreAction::Load(Category::DevInfra),
        StoreAction::Load(Category::Marketing),
        StoreAction::Load(Category::Common),
        StoreAction::Finish,
    ]);
    let s = r.unwrap();
    assert_eq!(s.dev_courses.len(), 1);
    assert_eq!(s.infra_courses.len(), 1);
    assert_eq!(s.dev_infra_courses.len(), 0);
    assert_eq!(s.marketing_courses.len(), 0);
    assert_eq!(s.common_courses.len(), 0);
    assert_eq!(s.dev_courses[0].subject, "Rust");
    assert_eq!(s.infra_courses[0].subject, "Réseaux");
}

#[test]
fn reconnect_then_same_results() {
    let q = Schedule::query_between(Date { days: MONDAY_2024_03_04 }, Date { days: MONDAY_2024_03_04 + 6 });
    let (actions, r) = run(q, false, true, &sample_rows);
    assert_eq!(actions[0], StoreAction::Probe);
    assert_eq!(actions[1], StoreAction::Reconnect);
    assert_eq!(actions[2], StoreAction::Load(Category::Dev));
    let s = r.unwrap();
    assert_eq!(s.dev_courses.len(), 1);
    assert_eq!(s.infra_courses.len(), 1);
}

#[test]
fn reconnect_failure_is_store_unavailable() {
    let q = Schedule::query_between(Date { days: MONDAY_2024_03_04 }, Date { days: MONDAY_2024_03_04 + 6 });
    let (actions, r) = run(q, false, false, &sample_rows);
    assert_eq!(actions, vec![StoreAction::Probe, StoreAction::Reconnect, StoreAction::Finish]);
    assert_eq!(r.unwrap_err(), StoreError::StoreUnavailable);
}

#[test]
fn failed_load_is_query_failed() {
    let mut q = Schedule::query_between(Date { days: MONDAY_2024_03_04 }, Date { days: MONDAY_2024_03_04 + 6 });
    q.on_event(StoreEvent::Succeeded);
    q.on_event(StoreEvent::Rows(sample_rows(Category::Dev)));
    q.on_event(StoreEvent::Failed);
    assert_eq!(q.stage, Stage::Failed(StoreError::QueryFailed));
    assert_eq!(q.action(), StoreAction::Finish);
    assert_eq!(q.finish().unwrap_err(), StoreError::QueryFailed);
}

#[test]
fn rows_outside_the_query_are_rejected() {
    let mut q = Schedule::query_between(Date { days: MONDAY_2024_03_04 }, Date { days: MONDAY_2024_03_04 + 6 });
    q.on_event(StoreEvent::Succeeded);
    q.on_event(StoreEvent::Rows(vec![course(3, MONDAY_2024_03_04 + 7, Category::Dev, "Late", false)]));
    assert_eq!(q.stage, Stage::Failed(StoreError::QueryFailed));
    let mut q = Schedule::query_between(Date { days: MONDAY_2024_03_04 }, Date { days: MONDAY_2024_03_04 + 6 });
    q.on_event(StoreEvent::Succeeded);
    q.on_event(StoreEvent::Rows(vec![course(4, MONDAY_2024_03_04, Category::Infra, "Wrong", false)]));
    assert_eq!(q.stage, Stage::Failed(StoreError::QueryFailed));
}

#[test]
fn unfinished_session_fails() {
    let q = Schedule::query_between(Date { days: MONDAY_2024_03_04 }, Date { days: MONDAY_2024_03_04 + 6 });
    assert_eq!(q.finish().unwrap_err(), StoreError::QueryFailed);
}

#[test]
fn flat_uses_display_order() {
    let mut s = Schedule::empty(Date { days: MONDAY_2024_03_04 }, Date { days: MONDAY_2024_03_04 + 6 });
    s.dev_courses.push(course(1, MONDAY_2024_03_04, Category::Dev, "A", false));
    s.marketing_courses.push(course(2, MONDAY_2024_03_04, Category::Marketing, "M", false));
    s.common_courses.push(course(3, MONDAY_2024_03_04, Category::Common, "C", false));
    s.infra_courses.push(course(4, MONDAY_2024_03_04, Category::Infra, "I", false));
    s.dev_infra_courses.push(course(5, MONDAY_2024_03_04, Category::DevInfra, "DI", false));
    let ids: Vec<i32> = s.into_flat().iter().map(|c| c.id).collect();
    assert_eq!(ids, vec![1, 4, 5, 3, 2]);
}

#[test]
fn bts_course_gets_badge() {
    let e = render_course(&course(2, MONDAY_2024_03_04 + 4, Category::Infra, "Réseaux", true));
    assert_eq!(e.title, "Réseaux");
    assert_eq!(e.color, 0x28A745);
    assert_eq!(e.fields.len(), 5);
    assert_eq!(e.fields[0].name, "Date");
    assert_eq!(e.fields[0].value, "vendredi [09:00-12:30]");
    assert_eq!(e.fields[1].name, "Intervenant");
    assert_eq!(e.fields[1].value, "M. Martin");
    assert_eq!(e.fields[2].name, "Salle");
    assert_eq!(e.fields[2].value, "B204");
    assert_eq!(e.fields[3].name, "Spécialité");
    assert_eq!(e.fields[3].value, "Infra");
    assert_eq!(e.fields[4].name, "BTS");
    assert_eq!(e.fields[4].value, "");
    assert!(e.fields.iter().all(|f| f.inline));
}

#[test]
fn other_course_has_no_badge() {
    let e = render_course(&course(1, MONDAY_2024_03_04, Category::Common, "Anglais", false));
    assert_eq!(e.fields.len(), 4);
    assert!(e.fields.iter().all(|f| f.name != "BTS"));
    assert_eq!(e.fields[0].value, "lundi [09:00-12:30]");
    assert_eq!(e.fields[3].value, "Tronc Commun");
    assert_eq!(e.color, 0xFFC107);
}

fn sample_schedule() -> Schedule {
    let q = Schedule::query_week(Date { days: MONDAY_2024_03_04 + 2 });
    run(q, true, true, &sample_rows).1.unwrap()
}

#[test]
fn plan_deletes_then_posts() {
    let recent: Vec<u64> = vec![30, 29, 28];
    let ops = publish_plan(&recent, sample_schedule());
    assert_eq!(ops.len(), 5);
    assert!(matches!(ops[0], ChannelOp::Delete(30)));
    assert!(matches!(ops[1], ChannelOp::Delete(29)));
    assert!(matches!(ops[2], ChannelOp::Delete(28)));
    match &ops[3] {
        ChannelOp::Post(e) => assert_eq!(e.title, "Rust"),
        _ => panic!("expected a post"),
    }
    match &ops[4] {
        ChannelOp::Post(e) => assert_eq!(e.title, "Réseaux"),
        _ => panic!("expected a post"),
    }
}

#[test]
fn plan_deletes_at_most_the_limit() {
    let recent: Vec<u64> = (0..25).collect();
    let ops = publish_plan(&recent, sample_schedule());
    let deletes = ops.iter().filter(|o| matches!(o, ChannelOp::Delete(_))).count();
    assert_eq!(deletes, RECENT_LIMIT);
    assert_eq!(ops.len(), RECENT_LIMIT + 2);
}

/// Applies a plan to a channel of (id, title) messages, oldest first.
fn apply(channel: &mut Vec<(u64, String)>, ops: Vec<ChannelOp>, next_id: &mut u64) {
    for op in ops {
        match op {
            ChannelOp::Delete(id) => channel.retain(|m| m.0 != id),
            ChannelOp::Post(e) => {
                channel.push((*next_id, e.title));
                *next_id += 1;
            }
        }
    }
}

fn recent_ids(channel: &[(u64, String)]) -> Vec<u64> {
    channel.iter().rev().take(RECENT_LIMIT).map(|m| m.0).collect()
}

#[test]
fn publishing_twice_equals_once() {
    let mut channel: Vec<(u64, String)> = vec![(1, "old".to_string()), (2, "older".to_string())];
    let mut next_id: u64 = 10;
    let ops = publish_plan(&recent_ids(&channel), sample_schedule());
    apply(&mut channel, ops, &mut next_id);
    let once: Vec<String> = channel.iter().map(|m| m.1.clone()).collect();
    let ops = publish_plan(&recent_ids(&channel), sample_schedule());
    apply(&mut channel, ops, &mut next_id);
    let twice: Vec<String> = channel.iter().map(|m| m.1.clone()).collect();
    assert_eq!(once, vec!["Rust".to_string(), "Réseaux".to_string()]);
    assert_eq!(once, twice);
}

#[test]
fn endpoint_scenario() {
    let q = edt_query("2024-03-04T00:00:00", "2024-03-10T23:59:59").unwrap();
    assert_eq!(q.schedule.start.days, MONDAY_2024_03_04);
    assert_eq!(q.schedule.end.days, MONDAY_2024_03_04 + 6);
    let (_, r) = run(q, true, true, &sample_rows);
    let events = edt_response(r).unwrap();
    assert_eq!(events.len(), 2);
    assert!(events[0].title.contains("Rust"));
    assert_eq!(events[0].background_color, "#007bff");
    assert!(events[1].title.contains("Réseaux"));
    assert_eq!(events[1].background_color, "#28a745");
    assert_eq!(events[0].start, "2024-03-04 09:00:00");
    assert_eq!(events[0].end, "2024-03-04 12:30:00");
    assert_eq!(events[1].start, "2024-03-08 09:00:00");
    assert_eq!(events[0].title, " Rust - M. Martin (B204)");
    assert_eq!(events[1].title, "[BTS] Réseaux - M. Martin (B204)");
}

#[test]
fn malformed_start_is_a_client_error() {
    let r = edt_query("not-a-date", "2024-03-10T23:59:59");
    let e = r.unwrap_err();
    assert_eq!(e, EdtError::MalformedInput);
    assert_eq!(e.status(), 400);
    assert_eq!(edt_query("2024-03-04T00:00:00", "2024-03-10").unwrap_err(), EdtError::MalformedInput);
}

#[test]
fn store_failure_is_a_server_error() {
    let r = edt_response(Err(StoreError::StoreUnavailable));
    let e = r.unwrap_err();
    assert_eq!(e, EdtError::Store(StoreError::StoreUnavailable));
    assert_eq!(e.status(), 500);
}

#[test]
fn reversed_range_gives_nothing() {
    let q = edt_query("2024-03-10T00:00:00", "2024-03-04T00:00:00").unwrap();
    let (_, r) = run(q, true, true, &|_| vec![]);
    assert_eq!(events_of(&r.unwrap()).len(), 0);
}

#[test]
fn timestamp_keeps_the_date() {
    assert_eq!(timestamp_date("2024-03-04T23:59:59"), Some(Date { days: MONDAY_2024_03_04 }));
    assert_eq!(timestamp_date("0001-01-01T00:00:00"), Some(Date { days: 1 }));
    assert_eq!(timestamp_date("2024-02-30T00:00:00"), None);
    assert_eq!(timestamp_date(""), None);
}

#[test]
fn dates_and_times_as_text() {
    assert_eq!(Date { days: MONDAY_2024_03_04 }.iso_text(), "2024-03-04");
    assert_eq!(Date { days: MONDAY_2024_03_04 }.french_day_name(), "lundi");
    assert_eq!(Date { days: MONDAY_2024_03_04 + 6 }.french_day_name(), "dimanche");
    assert_eq!(Time { secs: 0 }.hms_text(), "00:00:00");
    assert_eq!(Time { secs: 86399 }.hms_text(), "23:59:59");
    assert_eq!(Time { secs: 8 * 3600 + 5 * 60 + 7 }.hm_text(), "08:05");
    assert_eq!(Date { days: MONDAY_2024_03_04 }.plus_days(7).days, MONDAY_2024_03_04 + 7);
}

#[test]
fn event_of_single_course() {
    let e = event_of(&course(7, MONDAY_2024_03_04 + 1, Category::Marketing, "SEO", false));
    assert_eq!(e.start, "2024-03-05 09:00:00");
    assert_eq!(e.background_color, "#dc3545");
}

#[test]
fn categories_tags_labels_colors() {
    assert_eq!(Category::DevInfra.tag(), "devinfra");
    assert_eq!(Category::from_tag("marketing"), Some(Category::Marketing));
    assert_eq!(Category::from_tag("Dev"), None);
    assert_eq!(Category::DevInfra.label(), "Dev/Infra");
    assert_eq!(Category::Common.label(), "Tronc Commun");
    assert_eq!(Category::Dev.embed_color(), 0x007BFF);
    assert_eq!(Category::DevInfra.embed_color(), 0x17A2B8);
    assert_eq!(Category::Marketing.embed_color(), 0xDC3545);
    assert_eq!(Category::Common.web_color(), "#ffc107");
    assert_eq!(Category::DevInfra.web_color(), "#17a2b8");
}

#[test]
fn settings_are_parsed() {
    assert_eq!(Data::new("123", "456"), Ok(Data { channel: 123, admin: 456 }));
    assert_eq!(Data::new("x", "456"), Err(ConfigError::BadChannel));
    assert_eq!(Data::new("123", ""), Err(ConfigError::BadAdmin));
}

#[test]
fn next_week_is_the_week_after() {
    // Sunday 2024-03-03: the publication announces the week of 2024-03-04.
    let q = next_week_query(Date { days: MONDAY_2024_03_04 - 1 }).unwrap();
    assert_eq!(q.schedule.start.days, MONDAY_2024_03_04);
    let q = next_week_query(Date { days: MONDAY_2024_03_04 }).unwrap();
    assert_eq!(q.schedule.start.days, MONDAY_2024_03_04 + 7);
    assert!(next_week_query(Date { days: MAX_DAY }).is_none());
}

#[test]
fn failure_notice_names_the_error() {
    assert_eq!(failure_notice(StoreError::StoreUnavailable), "Failed to execute command: the course store is unavailable");
    assert_eq!(failure_notice(StoreError::QueryFailed), "Failed to execute command: a course query failed");
}

#[test]
fn extreme_dates_as_text() {
    assert_eq!(Date { days: MAX_DAY }.iso_text(), "+262142-12-31");
    assert_eq!(Date { days: MIN_DAY }.iso_text(), "-262143-01-01");
    assert_eq!(Date { days: 1 }.french_day_name(), "lundi");
    assert!(!Date { days: MAX_DAY }.french_day_name().is_empty());
}
