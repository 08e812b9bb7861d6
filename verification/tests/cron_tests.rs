use skate::cron::cron_to_systemd;

#[test]
fn test_cron_to_systemd() {
    let conditions = &[
        ("* * * * *", "*-*-* *:*:00"),
        ("*/10 * * * *", "*-*-* *:0,10,20,30,40,50:00"),
        ("0 * * * *", "*-*-* *:0:00"),
        ("0 0 * * *", "*-*-* 0:0:00"),
        ("0 0 1 * *", "*-*-1 0:0:00"),
        ("0 0 1 1 *", "*-1-1 0:0:00"),
        ("0 0 1 1 1", "1 *-1-1 0:0:00"),
    ];

    for (input, expect) in conditions {
        match cron_to_systemd(input, "") {
            Ok(output) => {
                assert_eq!(output, *expect, "input: {}", input);
            }
            Err(e) => {
                panic!("{}: {:?}", *expect, e);
            }
        }
    }
}

#[test]
fn cron_with_time_zone_and_invalid_expression() {
    let out = cron_to_systemd("0 0 * * *", "UTC").unwrap();
    assert_eq!(out, "*-*-* 0:0:00 UTC");
    assert!(cron_to_systemd("not a cron", "").is_err());
}
