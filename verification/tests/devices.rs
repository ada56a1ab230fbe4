use tuya_meter::calendar::Month;
use tuya_meter::device::{
    daily_statistics_params, device_info_path, device_properties_path,
    device_statistics_days_path, device_statistics_months_path, devices_params, devices_path,
    DeviceDailyStatistics, DeviceMonthlyStatistics, DeviceResponse,
};
use tuya_meter::year_month::YearMonth;
use tuya_meter::year_month_day::YearMonthDay;

#[test]
fn device_name_prefers_the_custom_name() {
    let named = DeviceResponse {
        device_id: "d1".to_owned(),
        product_name: "Smart Plug".to_owned(),
        custom_name: "Washer".to_owned(),
        is_online: true,
    };
    assert_eq!(named.get_name(), "Washer");
    let unnamed = DeviceResponse {
        device_id: "d2".to_owned(),
        product_name: "Smart Plug".to_owned(),
        custom_name: "".to_owned(),
        is_online: false,
    };
    assert_eq!(unnamed.get_name(), "Smart Plug");
}

#[test]
fn endpoint_paths() {
    assert_eq!(device_info_path("d1"), "/v2.0/cloud/thing/d1");
    assert_eq!(
        device_properties_path("d1"),
        "/v2.0/cloud/thing/d1/shadow/properties"
    );
    assert_eq!(
        device_statistics_months_path("d1"),
        "/v1.0/devices/d1/statistics/months"
    );
    assert_eq!(
        device_statistics_days_path("d1"),
        "/v1.0/devices/d1/statistics/days"
    );
    assert_eq!(devices_path(), "/v2.0/cloud/thing/device");
    let p = devices_params();
    assert_eq!(p.len(), 1);
    assert_eq!(p[0], ("page_size".to_owned(), "20".to_owned()));
}

#[test]
fn statistics_params_carry_the_window() {
    let start = YearMonth::new(2023, Month::October).unwrap();
    let end = YearMonth::new(2023, Month::November).unwrap();
    let p = tuya_meter::device::monthly_statistics_params(&start, &end);
    assert_eq!(
        p,
        vec![
            ("code".to_owned(), "add_ele".to_owned()),
            ("end_month".to_owned(), "202311".to_owned()),
            ("start_month".to_owned(), "202310".to_owned()),
        ]
    );
    let s = YearMonthDay::new(2023, Month::November, 1).unwrap();
    let e = YearMonthDay::new(2023, Month::November, 30).unwrap();
    let q = daily_statistics_params(&s, &e);
    assert_eq!(
        q,
        vec![
            ("start_day".to_owned(), "20231101".to_owned()),
            ("end_day".to_owned(), "20231130".to_owned()),
            ("code".to_owned(), "add_ele".to_owned()),
        ]
    );
}

#[test]
fn monthly_table_pads_to_the_longest_label() {
    let stats = DeviceMonthlyStatistics::new(vec![
        (YearMonth::new(2023, Month::October).unwrap(), "12.34".to_owned()),
        (YearMonth::new(2023, Month::November).unwrap(), "5.6".to_owned()),
    ])
    .unwrap();
    assert_eq!(
        stats.as_pretty_string(),
        "* 2023 October:  12.34 kWh\n* 2023 November: 5.6 kWh"
    );
}

#[test]
fn daily_table_renders_each_day() {
    let stats = DeviceDailyStatistics::new(vec![
        (YearMonthDay::new(2023, Month::November, 1).unwrap(), "1.0".to_owned()),
        (YearMonthDay::new(2023, Month::November, 12).unwrap(), "2.5".to_owned()),
    ])
    .unwrap();
    assert_eq!(
        stats.as_pretty_string(),
        "* 1 November 2023:  1.0 kWh\n* 12 November 2023: 2.5 kWh"
    );
}

#[test]
fn empty_tables_render_empty() {
    let stats = DeviceMonthlyStatistics::new(vec![]).unwrap();
    assert_eq!(stats.as_pretty_string(), "");
    let daily = DeviceDailyStatistics::new(vec![]).unwrap();
    assert_eq!(daily.as_pretty_string(), "");
}

#[test]
fn tables_reject_rows_out_of_order() {
    let oct = YearMonth::new(2023, Month::October).unwrap();
    let nov = YearMonth::new(2023, Month::November).unwrap();
    assert!(DeviceMonthlyStatistics::new(vec![
        (nov, "5.6".to_owned()),
        (oct, "12.34".to_owned()),
    ])
    .is_none());
    assert!(DeviceMonthlyStatistics::new(vec![
        (oct, "12.34".to_owned()),
        (oct, "5.6".to_owned()),
    ])
    .is_none());
    let d1 = YearMonthDay::new(2023, Month::November, 2).unwrap();
    let d2 = YearMonthDay::new(2023, Month::November, 1).unwrap();
    assert!(DeviceDailyStatistics::new(vec![
        (d1, "1.0".to_owned()),
        (d2, "2.5".to_owned()),
    ])
    .is_none());
}

#[test]
fn tables_hand_their_rows_back_in_order() {
    let oct = YearMonth::new(2023, Month::October).unwrap();
    let nov = YearMonth::new(2023, Month::November).unwrap();
    let stats = DeviceMonthlyStatistics::new(vec![
        (oct, "12.34".to_owned()),
        (nov, "5.6".to_owned()),
    ])
    .unwrap();
    let rows = stats.months();
    assert_eq!(rows.len(), 2);
    assert_eq!(rows[0].0, oct);
    assert_eq!(rows[1].0, nov);
}
