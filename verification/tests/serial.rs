use vital_signs::queue::BoundedQueue;
use vital_signs::serial_manager::{PortKind, SerialManager, Stopped, Transmission};
use vital_signs::serial_reader::{ReadOutcome, ReaderAction, SerialReader};
use vital_signs::types::{DataQueue, DataSourceType, SerialConfig, SerialStatus, VitalSigns};

fn config(name: &str) -> SerialConfig {
    SerialConfig { port_name: name.to_string(), baud_rate: 115_200 }
}

fn parsed(ecg: i32, spo2: i32, temp: i32) -> Option<VitalSigns> {
    Some(VitalSigns { ecg, spo2, temp })
}

#[test]
fn parse_plain_line() {
    assert_eq!(SerialReader::parse_data_line("A=512,B=98,C=370"), parsed(512, 98, 370));
}

#[test]
fn parse_line_with_newline_and_spaces() {
    assert_eq!(SerialReader::parse_data_line("A=512,B=98,C=370\r\n"), parsed(512, 98, 370));
    assert_eq!(SerialReader::parse_data_line(" A = 5 ,\tB= 6,C =7 \n"), parsed(5, 6, 7));
    assert_eq!(SerialReader::parse_data_line("\u{3000}A\u{a0}=\u{2003}1,B=2,C=3"), parsed(1, 2, 3));
}

#[test]
fn parse_any_order_and_unknown_keys() {
    assert_eq!(SerialReader::parse_data_line("C=3,X=9,B=2,A=1"), parsed(1, 2, 3));
    assert_eq!(SerialReader::parse_data_line("junk,A=1,,B=2,D=,C=3,"), parsed(1, 2, 3));
}

#[test]
fn parse_signs() {
    assert_eq!(SerialReader::parse_data_line("A=-12,B=+7,C=-0"), parsed(-12, 7, 0));
    assert_eq!(SerialReader::parse_data_line("A=-,B=1,C=1"), None);
    assert_eq!(SerialReader::parse_data_line("A=+,B=1,C=1"), None);
    assert_eq!(SerialReader::parse_data_line("A=--1,B=1,C=1"), None);
    assert_eq!(SerialReader::parse_data_line("A=- 1,B=1,C=1"), None);
}

#[test]
fn parse_limits() {
    assert_eq!(
        SerialReader::parse_data_line("A=2147483647,B=-2147483648,C=0000000000000000000042"),
        parsed(i32::MAX, i32::MIN, 42)
    );
    assert_eq!(SerialReader::parse_data_line("A=2147483648,B=1,C=1"), None);
    assert_eq!(SerialReader::parse_data_line("A=-2147483649,B=1,C=1"), None);
    assert_eq!(SerialReader::parse_data_line("A=99999999999999999999999,B=1,C=1"), None);
}

#[test]
fn parse_missing_or_bad_fields() {
    assert_eq!(SerialReader::parse_data_line(""), None);
    assert_eq!(SerialReader::parse_data_line("A=1,B=2"), None);
    assert_eq!(SerialReader::parse_data_line("A=1,B=2,C="), None);
    assert_eq!(SerialReader::parse_data_line("A=1,B=2,C=3.5"), None);
    assert_eq!(SerialReader::parse_data_line("A=1,B=2,C=x"), None);
    assert_eq!(SerialReader::parse_data_line("A=1,B=2,C=3=4"), None);
    assert_eq!(SerialReader::parse_data_line("a=1,B=2,C=3"), None);
    assert_eq!(SerialReader::parse_data_line("AA=1,B=2,C=3"), None);
    assert_eq!(SerialReader::parse_data_line("A=1;B=2;C=3"), None);
    assert_eq!(SerialReader::parse_data_line("A=１,B=2,C=3"), None);
}

#[test]
fn parse_later_part_replaces_earlier() {
    assert_eq!(SerialReader::parse_data_line("A=1,B=2,C=3,A=9"), parsed(9, 2, 3));
    assert_eq!(SerialReader::parse_data_line("A=1,B=2,C=3,A=x"), None);
    assert_eq!(SerialReader::parse_data_line("A=1,B=2,C=3,A=7=8"), parsed(1, 2, 3));
}

#[test]
fn reader_puts_parsed_lines_into_the_queue() {
    let mut reader = SerialReader::new(config("COM3"));
    let mut queue: DataQueue = BoundedQueue::new();
    let line = ReadOutcome::Line("A=1,B=2,C=3\n".to_string());
    assert_eq!(reader.handle_read(&line, &mut queue), ReaderAction::Continue);
    assert_eq!(queue.len(), 1);
    assert_eq!(*queue.get(0), VitalSigns { ecg: 1, spo2: 2, temp: 3 });
    let noise = ReadOutcome::Line("hello".to_string());
    assert_eq!(reader.handle_read(&noise, &mut queue), ReaderAction::Continue);
    assert_eq!(queue.len(), 1);
    assert_eq!(reader.handle_read(&ReadOutcome::Eof, &mut queue), ReaderAction::Exit);
    assert_eq!(queue.len(), 1);
}

#[test]
fn reader_gives_up_after_five_failures_in_a_row() {
    let mut reader = SerialReader::new(config("COM3"));
    let mut queue: DataQueue = BoundedQueue::new();
    for _ in 0..4 {
        assert_eq!(
            reader.handle_read(&ReadOutcome::Failed, &mut queue),
            ReaderAction::Retry { millis: 1000 }
        );
    }
    assert_eq!(reader.handle_read(&ReadOutcome::Failed, &mut queue), ReaderAction::Exit);
}

#[test]
fn reader_line_resets_the_failure_count() {
    let mut reader = SerialReader::new(config("COM3"));
    let mut queue: DataQueue = BoundedQueue::new();
    for _ in 0..4 {
        reader.handle_read(&ReadOutcome::Failed, &mut queue);
    }
    reader.handle_read(&ReadOutcome::Line("x".to_string()), &mut queue);
    for _ in 0..4 {
        assert_eq!(
            reader.handle_read(&ReadOutcome::Failed, &mut queue),
            ReaderAction::Retry { millis: 1000 }
        );
    }
    assert_eq!(reader.handle_read(&ReadOutcome::Failed, &mut queue), ReaderAction::Exit);
}

#[test]
fn reader_stop_flag() {
    let mut reader = SerialReader::new(config("/dev/ttyUSB0"));
    assert!(!reader.is_stopped());
    assert_eq!(reader.config(), config("/dev/ttyUSB0"));
    reader.stop();
    assert!(reader.is_stopped());
}

#[test]
fn manager_starts_disconnected() {
    let manager = SerialManager::new();
    assert_eq!(manager.get_status(), SerialStatus::Disconnected);
    assert_eq!(manager.get_data_source_type(), DataSourceType::RealSerial);
    assert_eq!(manager.get_data_queue().len(), 0);
    assert!(manager.get_latest_data(10).is_empty());
    assert_eq!(manager.send_data("x".to_string()), Err("串口未连接".to_string()));
}

#[test]
fn manager_connects_to_a_serial_line() {
    let mut manager = SerialManager::new();
    assert_eq!(manager.connect(config("COM7"), Ok(())), Ok(()));
    assert_eq!(manager.get_status(), SerialStatus::Connected("COM7".to_string()));
    assert_eq!(
        manager.send_data("ping".to_string()),
        Ok(Transmission { config: config("COM7"), data: "ping".to_string() })
    );
    assert_eq!(manager.disconnect(), Stopped { serial: true, simulation: false });
    assert_eq!(manager.get_status(), SerialStatus::Disconnected);
    assert_eq!(manager.send_data("ping".to_string()), Err("串口未连接".to_string()));
    assert_eq!(manager.disconnect(), Stopped { serial: false, simulation: false });
}

#[test]
fn manager_failed_connect_leaves_it_disconnected() {
    let mut manager = SerialManager::new();
    manager.connect(config("COM7"), Ok(())).unwrap();
    let failed = manager.connect(config("COM8"), Err("无法打开串口: busy".to_string()));
    assert_eq!(failed, Err("无法打开串口: busy".to_string()));
    assert_eq!(manager.get_status(), SerialStatus::Disconnected);
    assert!(manager.send_data("x".to_string()).is_err());
}

#[test]
fn manager_connects_to_the_simulation() {
    let mut manager = SerialManager::new();
    manager.set_data_source_type(DataSourceType::TestSimulation);
    assert_eq!(manager.get_data_source_type(), DataSourceType::TestSimulation);
    assert_eq!(manager.connect(config("ignored"), Ok(())), Ok(()));
    assert_eq!(manager.get_status(), SerialStatus::Connected("TEST_MODE".to_string()));
    assert_eq!(manager.send_data("x".to_string()), Err("串口未连接".to_string()));
    assert_eq!(manager.disconnect(), Stopped { serial: false, simulation: true });
}

#[test]
fn manager_reconnect_replaces_the_reader() {
    let mut manager = SerialManager::new();
    manager.connect(config("COM1"), Ok(())).unwrap();
    manager.connect(config("COM2"), Ok(())).unwrap();
    assert_eq!(manager.get_status(), SerialStatus::Connected("COM2".to_string()));
    assert_eq!(manager.send_data(String::new()).unwrap().config.port_name, "COM2");
}

#[test]
fn port_descriptions() {
    let ports = vec![
        ("COM1".to_string(), PortKind::Usb { vid: 0x1a86, pid: 0x7523 }),
        ("COM2".to_string(), PortKind::Usb { vid: 0, pid: 0xffff }),
        ("COM3".to_string(), PortKind::Pci),
        ("COM4".to_string(), PortKind::Bluetooth),
        ("COM5".to_string(), PortKind::Unknown),
    ];
    let listed = SerialManager::get_available_ports(&ports);
    assert_eq!(
        listed,
        vec![
            ("COM1".to_string(), "USB设备 (VID:1a86 PID:7523)".to_string()),
            ("COM2".to_string(), "USB设备 (VID:0000 PID:ffff)".to_string()),
            ("COM3".to_string(), "PCI设备".to_string()),
            ("COM4".to_string(), "蓝牙设备".to_string()),
            ("COM5".to_string(), "未知设备".to_string()),
        ]
    );
    assert_eq!(listed[0].1, format!("USB设备 (VID:{:04x} PID:{:04x})", 0x1a86, 0x7523));
    assert!(SerialManager::get_available_ports(&Vec::new()).is_empty());
}

#[test]
fn source_names() {
    assert_eq!(DataSourceType::from_name("real"), Ok(DataSourceType::RealSerial));
    assert_eq!(DataSourceType::from_name("test"), Ok(DataSourceType::TestSimulation));
    assert_eq!(
        DataSourceType::from_name("Real"),
        Err("无效的数据源类型，请使用 'real' 或 'test'".to_string())
    );
    assert!(DataSourceType::from_name("").is_err());
    assert_eq!(DataSourceType::RealSerial.name(), "real");
    assert_eq!(DataSourceType::TestSimulation.name(), "test");
}

#[test]
fn manager_feeds_its_queue_from_the_reader() {
    let mut manager = SerialManager::new();
    let line = ReadOutcome::Line("A=1,B=2,C=3".to_string());
    assert_eq!(manager.on_read(&line), ReaderAction::Exit);
    assert_eq!(manager.get_data_queue().len(), 0);
    manager.connect(config("COM1"), Ok(())).unwrap();
    assert_eq!(manager.on_read(&line), ReaderAction::Continue);
    assert_eq!(manager.on_read(&ReadOutcome::Line("A=4,B=5,C=6".to_string())), ReaderAction::Continue);
    assert_eq!(manager.on_read(&ReadOutcome::Line("A=4,B=5".to_string())), ReaderAction::Continue);
    assert_eq!(manager.on_read(&ReadOutcome::Failed), ReaderAction::Retry { millis: 1000 });
    assert_eq!(
        manager.get_latest_data(5),
        vec![VitalSigns { ecg: 4, spo2: 5, temp: 6 }, VitalSigns { ecg: 1, spo2: 2, temp: 3 }]
    );
    assert_eq!(manager.get_latest_data(1), vec![VitalSigns { ecg: 4, spo2: 5, temp: 6 }]);
    assert_eq!(manager.take_sample(), Some(VitalSigns { ecg: 1, spo2: 2, temp: 3 }));
    assert_eq!(manager.take_sample(), Some(VitalSigns { ecg: 4, spo2: 5, temp: 6 }));
    assert_eq!(manager.take_sample(), None);
    assert_eq!(manager.on_read(&ReadOutcome::Eof), ReaderAction::Exit);
    for _ in 0..3 {
        assert_eq!(manager.on_read(&ReadOutcome::Failed), ReaderAction::Retry { millis: 1000 });
    }
    assert_eq!(manager.on_read(&ReadOutcome::Failed), ReaderAction::Exit);
}

#[test]
fn manager_keeps_samples_across_disconnect() {
    let mut manager = SerialManager::new();
    manager.connect(config("COM1"), Ok(())).unwrap();
    manager.on_read(&ReadOutcome::Line("A=1,B=2,C=3".to_string()));
    manager.disconnect();
    assert_eq!(manager.get_latest_data(9).len(), 1);
}

#[test]
fn manager_ticks_only_while_simulating() {
    let mut manager = SerialManager::new();
    assert_eq!(manager.on_tick(0), None);
    manager.connect(config("COM1"), Ok(())).unwrap();
    assert_eq!(manager.on_tick(0), None);
    manager.set_data_source_type(DataSourceType::TestSimulation);
    assert_eq!(manager.on_tick(0), None);
    manager.connect(config("COM1"), Ok(())).unwrap();
    assert_eq!(manager.on_read(&ReadOutcome::Eof), ReaderAction::Exit);
    for round in 0..5 {
        assert_eq!(manager.on_tick(400), Some(100));
        assert_eq!(manager.get_data_queue().len(), round + 1);
    }
    let newest = manager.get_latest_data(1)[0];
    assert!(350 <= newest.ecg && newest.ecg < 450);
    assert!(95 <= newest.spo2 && newest.spo2 <= 100);
    assert!(360 <= newest.temp && newest.temp < 375);
    manager.disconnect();
    assert_eq!(manager.on_tick(400), None);
    assert_eq!(manager.get_data_queue().len(), 5);
}

#[test]
fn manager_queue_drops_oldest() {
    let mut manager = SerialManager::new();
    manager.connect(config("COM1"), Ok(())).unwrap();
    for i in 0..1001 {
        manager.on_read(&ReadOutcome::Line(format!("A={},B=98,C=370", i)));
    }
    assert_eq!(manager.get_data_queue().len(), 1000);
    assert_eq!(manager.get_latest_data(1)[0].ecg, 1000);
    assert_eq!(manager.take_sample().unwrap().ecg, 1);
}
