use yafb::battery::{battery_prelude, change_battery, BatteryStep};
use yafb::clients::{client_for_window, client_offset, collectors, is_target_window};
use yafb::config::{
    Account, Accounts, BaseConfig, Client, CollectorConfig, DungeonsConfig, KitebotConfig,
    SystembufferConfig,
};
use yafb::input::{fkey_code, mode_select, parse_selection, prompt_user, setup, setup_timeout, InputError};
use yafb::memory::{parse_hex_offset, read_account_name, read_buffer};
use yafb::notify::{notification, NotificationError};
use yafb::text::{chars_of, last_line_bounds, trimmed_len};

fn client(pid: u32, name: &str, collect: bool) -> Client {
    Client { pid, hwnd: pid + 100, name: name.to_string(), collect, offx: 1, offy: 2 }
}

fn not_a_number(r: &InputError) -> Option<String> {
    match r {
        InputError::NotANumber(t) => Some(t.clone()),
        InputError::TooHigh(_) => None,
    }
}

#[test]
fn config_defaults() {
    let a = Account::default();
    assert_eq!(a.name, "default");
    assert_eq!(a.account, "default");
    assert!(!a.collect);
    let accs = Accounts::default();
    assert_eq!(accs.account.len(), 1);
    assert_eq!(accs.account[0].account, "default");
    let b = BaseConfig::default();
    assert_eq!(b.executable, "Neuz.exe");
    assert_eq!(b.offset, "0");
    let c = CollectorConfig::default();
    assert_eq!((c.timeout, c.modifier), (1800, 1));
    let k = KitebotConfig::default();
    assert_eq!((k.timeout, k.keytime), (600, 200));
    assert_eq!(SystembufferConfig::default().offset, "0");
    assert_eq!(DungeonsConfig::default().offset, "0");
}

#[test]
fn selection_accepts_numbers_up_to_bound() {
    assert_eq!(parse_selection("3\n", 4).unwrap(), 3);
    assert_eq!(parse_selection("4\r\n", 4).unwrap(), 4);
    assert_eq!(parse_selection("0", 4).unwrap(), 0);
    assert_eq!(parse_selection("+2\n", 4).unwrap(), 2);
    assert_eq!(parse_selection("4\u{3000}\u{a0}", 4).unwrap(), 4);
    assert_eq!(parse_selection("007\n", 9).unwrap(), 7);
}

#[test]
fn selection_refuses_large_numbers() {
    match parse_selection("5\n", 4) {
        Err(InputError::TooHigh(n)) => assert_eq!(n, 5),
        other => panic!("unexpected {:?}", other),
    }
}

#[test]
fn selection_refuses_non_numbers() {
    for (line, trimmed) in [
        ("abc\n", "abc"),
        ("  7 \t\r\n", "  7"),
        ("", ""),
        ("\n", ""),
        ("-1\n", "-1"),
        ("+\n", "+"),
        ("1 2\n", "1 2"),
        ("99999999999999999999999999\n", "99999999999999999999999999"),
    ] {
        let e = parse_selection(line, 4).unwrap_err();
        assert_eq!(not_a_number(&e).as_deref(), Some(trimmed), "line {:?}", line);
    }
}

#[test]
fn mode_selection() {
    assert_eq!(mode_select("4\n").unwrap(), 4);
    assert_eq!(mode_select("1").unwrap(), 1);
    assert!(matches!(mode_select("5\n"), Err(InputError::TooHigh(5))));
    assert_eq!(not_a_number(&mode_select("x\n").unwrap_err()).as_deref(), Some("x"));
}

#[test]
fn fkey_codes() {
    assert_eq!(fkey_code("1\n").unwrap(), 0x70);
    assert_eq!(fkey_code("5").unwrap(), 0x74);
    assert_eq!(fkey_code("9\r\n").unwrap(), 0x78);
    for (line, trimmed) in [("0\n", "0"), ("10\n", "10"), ("256\n", "256"), ("F1\n", "F1")] {
        let e = fkey_code(line).unwrap_err();
        assert_eq!(not_a_number(&e).as_deref(), Some(trimmed));
    }
}

#[test]
fn setup_of_spammer_and_collector() {
    let s = setup(false, 1800, "30\n", "2\n").unwrap();
    assert_eq!((s.timeout, s.keysel), (30, 0x71));
    let c = setup(true, 1800, "garbage", "3\n").unwrap();
    assert_eq!((c.timeout, c.keysel), (1800, 0x72));
    let e = setup(false, 1800, "soon\n", "nope\n").unwrap_err();
    assert_eq!(not_a_number(&e).as_deref(), Some("soon"));
    let e = setup(true, 1800, "soon\n", "nope\n").unwrap_err();
    assert_eq!(not_a_number(&e).as_deref(), Some("nope"));
    assert_eq!(setup_timeout(false, 5, "12\n").unwrap(), 12);
    assert_eq!(setup_timeout(true, 5, "12\n").unwrap(), 5);
}

#[test]
fn prompt_user_picks_clients() {
    let one = vec![client(1, "solo", false)];
    assert_eq!(prompt_user(&one, "whatever").unwrap().name, "solo");
    let two = vec![client(1, "a", false), client(2, "b", true)];
    let c = prompt_user(&two, "1\n").unwrap();
    assert_eq!((c.pid, c.name.as_str(), c.collect), (2, "b", true));
    assert_eq!(prompt_user(&two, "0\n").unwrap().name, "a");
    assert!(matches!(prompt_user(&two, "3\n"), Err(InputError::TooHigh(3))));
    assert_eq!(not_a_number(&prompt_user(&two, "b\n").unwrap_err()).as_deref(), Some("b"));
}

#[test]
fn buffer_chunks() {
    let mut chunk = [0u8; 2048];
    chunk[..5].copy_from_slice(b"hello");
    chunk[6] = b'x';
    let (text, stop) = read_buffer(&chunk).unwrap();
    assert_eq!(text, "hello");
    assert!(stop);
    let full = [b'a'; 2048];
    let (text, stop) = read_buffer(&full).unwrap();
    assert_eq!(text.len(), 2048);
    assert!(!stop);
    let empty = [0u8; 2048];
    assert_eq!(read_buffer(&empty).unwrap(), (String::new(), true));
    let mut bad = [0u8; 2048];
    bad[0] = 0xff;
    assert!(read_buffer(&bad).is_err());
    let mut accented = [0u8; 2048];
    accented[..3].copy_from_slice("é!".as_bytes());
    assert_eq!(read_buffer(&accented).unwrap().0, "é!");
}

#[test]
fn account_names() {
    let mut buf = [0u8; 16];
    buf[0] = b'b';
    buf[2] = b'o';
    buf[15] = b'b';
    assert_eq!(read_account_name(&buf).unwrap(), "bob");
    assert_eq!(read_account_name(&[0u8; 16]).unwrap(), "");
    let mut bad = [0u8; 16];
    bad[3] = 0xc3;
    assert!(read_account_name(&bad).is_err());
}

#[test]
fn hex_offsets() {
    assert_eq!(parse_hex_offset("164"), Some(0x164));
    assert_eq!(parse_hex_offset("BC"), Some(0xbc));
    assert_eq!(parse_hex_offset("728"), Some(0x728));
    assert_eq!(parse_hex_offset("0"), Some(0));
    assert_eq!(parse_hex_offset("+fF"), Some(0xff));
    assert_eq!(parse_hex_offset("ffffffff"), Some(u32::MAX));
    assert_eq!(parse_hex_offset("100000000"), None);
    assert_eq!(parse_hex_offset(""), None);
    assert_eq!(parse_hex_offset("g"), None);
    assert_eq!(parse_hex_offset(" 1"), None);
}

#[test]
fn notification_reports_fresh_messages() {
    let none = String::new();
    let r = notification("line1\n[Guild] hi\n", &none).unwrap();
    assert_eq!(r.as_deref(), Some("[Guild] hi"));
    let again = notification("line1\n[Guild] hi\n", &"[Guild] hi".to_string()).unwrap();
    assert_eq!(again, None);
    let crlf = notification("x\n[Party] yo\r\n", &none).unwrap();
    assert_eq!(crlf.as_deref(), Some("[Party] yo"));
    let bare_cr = notification("[Party] yo\r", &none).unwrap();
    assert_eq!(bare_cr.as_deref(), Some("[Party] yo\r"));
}

#[test]
fn notification_skips_notices_and_plain_lines() {
    let none = String::new();
    assert_eq!(notification("[Notice] server restart\n", &none).unwrap(), None);
    assert_eq!(notification("[Notice]", &none).unwrap(), None);
    assert_eq!(notification("[Trade] ok\nplain text", &none).unwrap(), None);
    assert_eq!(notification("[Noticed] x", &none).unwrap().as_deref(), Some("[Noticed] x"));
}

#[test]
fn notification_without_lines_is_unreadable() {
    let none = String::new();
    assert!(matches!(notification("", &none), Err(NotificationError::Unreadable)));
}

#[test]
fn text_helpers() {
    assert_eq!(chars_of("aé"), vec!['a', 'é']);
    let c = chars_of("ab \n");
    assert_eq!(trimmed_len(&c), 2);
    assert_eq!(last_line_bounds(&chars_of("a\nbc\n")), Some((2, 4)));
    assert_eq!(last_line_bounds(&chars_of("\n")), Some((0, 0)));
    assert_eq!(last_line_bounds(&chars_of("")), None);
    assert_eq!(last_line_bounds(&chars_of("a\n\r\n")), Some((2, 2)));
}

#[test]
fn button_offsets_by_client_size() {
    assert_eq!(client_offset(800, 600), (350, 360));
    assert_eq!(client_offset(1024, 768), (465, 445));
    assert_eq!(client_offset(1920, 1200), (910, 595));
    assert_eq!(client_offset(1360, 768), (630, 445));
    assert_eq!(client_offset(1, 1), (0, 0));
    assert_eq!(client_offset(-5, 0), (0, 0));
}

#[test]
fn target_windows() {
    assert!(is_target_window(true, true, Some("Neuz.exe"), "Neuz.exe"));
    assert!(!is_target_window(false, true, Some("Neuz.exe"), "Neuz.exe"));
    assert!(!is_target_window(true, false, Some("Neuz.exe"), "Neuz.exe"));
    assert!(!is_target_window(true, true, Some("neuz.exe"), "Neuz.exe"));
    assert!(!is_target_window(true, true, None, "Neuz.exe"));
}

#[test]
fn clients_from_windows() {
    let accounts = Accounts {
        account: vec![
            Account { account: "alice".to_string(), name: "Healer".to_string(), collect: false },
            Account { account: "bob".to_string(), name: "Miner".to_string(), collect: true },
            Account { account: "bob".to_string(), name: "Second".to_string(), collect: false },
        ],
    };
    let c = client_for_window(7, 99, "bob".to_string(), &accounts, 1280, 768);
    assert_eq!((c.pid, c.hwnd, c.name.as_str(), c.collect), (7, 99, "Miner", true));
    assert_eq!((c.offx, c.offy), (590, 445));
    let u = client_for_window(8, 98, "carol".to_string(), &accounts, 10, 10);
    assert_eq!((u.name.as_str(), u.collect, u.offx, u.offy), ("carol (account name)", false, 0, 0));
}

#[test]
fn collector_filter() {
    let all = vec![client(1, "a", true), client(2, "b", false), client(3, "c", true)];
    let cs = collectors(&all);
    let pids: Vec<u32> = cs.iter().map(|c| c.pid).collect();
    assert_eq!(pids, vec![1, 3]);
    assert!(collectors(&Vec::new()).is_empty());
}

#[test]
fn battery_steps_for_minimized_client() {
    assert_eq!(battery_prelude(true, 2), vec![BatteryStep::Restore, BatteryStep::WaitSeconds(2)]);
    assert!(battery_prelude(false, 2).is_empty());
    let c = Client { pid: 1, hwnd: 2, name: "c".to_string(), collect: true, offx: 590, offy: 445 };
    let steps = change_battery(&c, 0x72, 2, true, 100, 50);
    assert_eq!(
        steps,
        vec![
            BatteryStep::Click(183, 237),
            BatteryStep::PressKey(0x72, 500),
            BatteryStep::Click(720, 495),
            BatteryStep::WaitMillis(400),
            BatteryStep::Click(690, 495),
            BatteryStep::WaitMillis(1000),
            BatteryStep::Click(183, 237),
            BatteryStep::Minimize,
        ]
    );
    let visible = change_battery(&c, 0x70, 1, false, 0, 0);
    assert_eq!(visible.len(), 7);
    assert_eq!(visible[6], BatteryStep::Click(83, 187));
}
