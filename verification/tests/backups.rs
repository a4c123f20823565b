use highlights::backup::{
    backup_file_name, backup_name_at, current_time, time_from_clock, time_from_parts, nanos_between_exec, new_backup_file_name, parse_backup_name,
    plan_cleanup, plan_deletions, sort_newest_first, BackupFile, BackupTime,
};

fn name(timestamp: &str) -> String {
    format!("highlights_data_backup_{}.db", timestamp)
}

fn time(timestamp: &str) -> BackupTime {
    parse_backup_name(&name(timestamp)).unwrap()
}

fn file(timestamp: &str) -> BackupFile {
    BackupFile { name: name(timestamp), time: time(timestamp) }
}

#[test]
fn backup_names_hold_their_time() {
    let t = time("2023-01-02T03_04_05.250+0000");
    assert_eq!(t.secs(), 1672628645);
    assert_eq!(t.nanos(), 250_000_000);
    let shifted = time("2023-01-02T04_04_05.250+0100");
    assert_eq!(shifted.secs(), 1672628645);
}

#[test]
fn other_files_are_not_backups() {
    assert!(parse_backup_name("notes.txt").is_none());
    assert!(parse_backup_name("highlights_data_backup_yesterday.db").is_none());
    assert!(parse_backup_name("highlights_data_backup_2023-01-02T03_04_05+0000.sqlite").is_none());
}

#[test]
fn backup_file_names() {
    assert_eq!(backup_file_name("X"), "highlights_data_backup_X.db");
    let fresh = new_backup_file_name().unwrap();
    assert!(parse_backup_name(&fresh).is_some());
    let a = time("2023-03-01T00_00_00.000+0000");
    let at = backup_name_at(a);
    assert!(at.starts_with("highlights_data_backup_2023-03-01T00_00_00"));
    assert_eq!(parse_backup_name(&at), Some(a));
}

#[test]
fn differences_in_nanoseconds() {
    let a = time("2023-03-01T00_00_00.000+0000");
    let b = time("2023-02-28T12_00_00.500+0000");
    assert_eq!(nanos_between_exec(a, b), 43_199_500_000_000);
    assert_eq!(nanos_between_exec(b, a), -nanos_between_exec(a, b));
    let now = current_time().unwrap();
    assert!(nanos_between_exec(now, a) > 0);
}

#[test]
fn backups_sort_newest_first() {
    let sorted = sort_newest_first(vec![
        file("2023-02-20T00_00_00.000+0000"),
        file("2023-02-28T12_00_00.000+0000"),
        file("2023-02-27T11_00_00.000+0000"),
    ]);
    let names: Vec<&str> = sorted.iter().map(|f| f.name.as_str()).collect();
    assert_eq!(
        names,
        vec![
            "highlights_data_backup_2023-02-28T12_00_00.000+0000.db",
            "highlights_data_backup_2023-02-27T11_00_00.000+0000.db",
            "highlights_data_backup_2023-02-20T00_00_00.000+0000.db",
        ]
    );
}

#[test]
fn cleaning_keeps_recent_and_daily_backups() {
    let now = time("2023-03-01T00_00_00.000+0000");
    let (sorted, deleted) = plan_cleanup(
        vec![
            file("2023-02-27T00_00_00.000+0000"),
            file("2023-02-28T12_00_00.000+0000"),
            file("2023-02-20T00_00_00.000+0000"),
            file("2023-02-27T13_00_00.000+0000"),
            file("2023-02-28T06_00_00.000+0000"),
            file("2023-02-27T11_00_00.000+0000"),
        ],
        now,
    );
    let names: Vec<&str> = sorted.iter().map(|f| &f.name[23..39]).collect();
    assert_eq!(
        names,
        vec![
            "2023-02-28T12_00",
            "2023-02-28T06_00",
            "2023-02-27T13_00",
            "2023-02-27T11_00",
            "2023-02-27T00_00",
            "2023-02-20T00_00",
        ]
    );
    assert_eq!(deleted, vec![false, false, true, false, true, false]);
}

#[test]
fn a_single_backup_is_kept() {
    let now = time("2030-01-01T00_00_00.000+0000");
    let files = vec![file("2020-01-01T00_00_00.000+0000")];
    assert_eq!(plan_deletions(&files, now), vec![false]);
}

#[test]
fn at_most_seven_daily_backups_before_weekly_ones() {
    let now = time("2023-03-01T00_00_00.000+0000");
    let mut files = Vec::new();
    for day in 1..=20 {
        files.push(file(&format!("2023-02-{:02}T00_00_00.000+0000", 21 - day + 7)));
    }
    let sorted = sort_newest_first(files.into_iter().filter(|f| f.time.secs() < now.secs()).collect());
    let deleted = plan_deletions(&sorted, now);
    let kept: Vec<&str> = sorted
        .iter()
        .zip(deleted.iter())
        .filter(|(_, d)| !**d)
        .map(|(f, _)| &f.name[23..33])
        .collect();
    assert_eq!(
        kept,
        vec![
            "2023-02-27",
            "2023-02-26",
            "2023-02-25",
            "2023-02-24",
            "2023-02-23",
            "2023-02-22",
            "2023-02-21",
            "2023-02-20",
            "2023-02-13",
        ]
    );
}

#[test]
fn representable_times_agree_with_chrono() {
    let secs = [
        -8334601315201i64,
        -8334601315200,
        -8334601300000,
        -8334601228801i64,
        -8334601228800,
        -8334601228741,
        -1,
        0,
        59,
        1_700_000_000,
        8210266876799,
        8210266876800,
        i64::MIN,
        i64::MAX,
    ];
    for s in secs {
        for n in [0u32, 999_999_999, 1_000_000_000, 1_999_999_999, 2_000_000_000, u32::MAX] {
            assert_eq!(
                time_from_parts(s, n).is_some(),
                chrono::DateTime::from_timestamp(s, n).is_some(),
                "{} {}",
                s,
                n
            );
        }
    }
}

#[test]
fn chrono_range_starts_with_its_first_date() {
    let first = parse_backup_name("highlights_data_backup_-262143-01-01T00_00_00+0000.db").unwrap();
    assert_eq!((first.secs(), first.nanos()), (-8334601228800, 0));
    assert!(chrono::DateTime::from_timestamp(-8334601228801, 0).is_none());
}

#[test]
fn clock_readings() {
    let t = time_from_clock(1_700_000_000, 5).unwrap();
    assert_eq!((t.secs(), t.nanos()), (1_700_000_000, 5));
    assert!(time_from_clock(u64::MAX, 0).is_none());
    assert!(time_from_clock(8210266876800, 0).is_none());
    assert!(time_from_clock(59, 1_500_000_000).is_some());
    assert!(time_from_clock(58, 1_500_000_000).is_none());
}

#[test]
fn differences_agree_with_chrono() {
    let stamps = [
        "2016-12-31T23_59_60.500+0000",
        "2016-12-31T23_59_59.250+0000",
        "2017-01-01T00_00_00.000+0000",
        "2016-12-30T23_59_60.100+0000",
        "1969-07-20T20_17_40.000+0000",
        "2023-02-28T12_00_00.500+0000",
    ];
    for x in stamps {
        for y in stamps {
            let (a, b) = (time(x), time(y));
            let ca = chrono::DateTime::from_timestamp(a.secs(), a.nanos()).unwrap();
            let cb = chrono::DateTime::from_timestamp(b.secs(), b.nanos()).unwrap();
            let d = ca - cb;
            let expected = d.num_seconds() as i128 * 1_000_000_000 + d.subsec_nanos() as i128;
            assert_eq!(nanos_between_exec(a, b), expected, "{} - {}", x, y);
        }
    }
}
