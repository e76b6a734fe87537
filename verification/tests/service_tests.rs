use servicio_rust::analysis::SystemInfo;
use servicio_rust::clock::{current_mem_info, mem_info, mem_info_at};
use servicio_rust::containers::{install_cronjob_command, spares_container};
use servicio_rust::gateway::{get_server_for_discipline, student_reply};
use servicio_rust::graph::{classify_graph_reply, get_img, graph_report, GraphError, GraphReport};

fn reading() -> SystemInfo {
    SystemInfo { total_ram: 8_000_000, free_ram: 1_000_000, used_ram: 7_000_000, processes: Vec::new() }
}

#[test]
fn log_container_is_spared() {
    assert!(spares_container("a1b2c3d4e5f6", "a1b2c3d4e5f6\n"));
    assert!(spares_container("a1b2c3d4e5f6789", "  a1b2c3d4e5f6 \n"));
    assert!(!spares_container("ffff", "a1b2c3d4e5f6\n"));
    assert!(!spares_container("a1b2", "a1b2c3d4e5f6\n"));
}

#[test]
fn blank_listing_spares_nothing() {
    assert!(!spares_container("ffff", ""));
    assert!(!spares_container("ffff", " \n\t"));
    assert!(!spares_container("", ""));
}

#[test]
fn two_listed_ids_spare_nothing_but_their_prefix() {
    assert!(!spares_container("aaa", "aaa\nbbb\n"));
    assert!(spares_container("aaa\nbbbccc", "aaa\nbbb\n"));
}

#[test]
fn cron_command_wraps_job() {
    assert_eq!(
        install_cronjob_command("* * * * * /bin/bash gen.sh\n"),
        "(crontab -l 2>/dev/null; echo \"* * * * * /bin/bash gen.sh\n\") | crontab -"
    );
    assert_eq!(install_cronjob_command(""), "(crontab -l 2>/dev/null; echo \"\") | crontab -");
}

#[test]
fn mem_info_copies_totals() {
    let m = mem_info(&reading(), "01/02/2024 03:04:05".to_string());
    assert_eq!((m.total_ram, m.free_ram, m.used_ram), (8_000_000, 1_000_000, 7_000_000));
    assert_eq!(m.timestamp, "01/02/2024 03:04:05");
}

#[test]
fn current_mem_info_is_stamped_day_month_year_time() {
    let before = chrono::Utc::now();
    let m = current_mem_info(&reading()).expect("the clock reads after 1970");
    let after = chrono::Utc::now();
    assert_eq!((m.total_ram, m.free_ram, m.used_ram), (8_000_000, 1_000_000, 7_000_000));
    let a = before.format("%d/%m/%Y %H:%M:%S").to_string();
    let b = after.format("%d/%m/%Y %H:%M:%S").to_string();
    assert!(m.timestamp == a || m.timestamp == b);
    let t: Vec<char> = m.timestamp.chars().collect();
    assert_eq!(t.len(), 19);
    assert_eq!((t[2], t[5], t[10], t[13], t[16]), ('/', '/', ' ', ':', ':'));
}

#[test]
fn failed_status_reports_server_failure_without_reading_body() {
    assert!(matches!(graph_report(false, "not json"), Ok(GraphReport::ServerFailed)));
}

#[test]
fn error_member_is_reported() {
    match graph_report(true, "{\"error\": \"no data\"}") {
        Ok(GraphReport::ReportedError(t)) => assert_eq!(t, "no data"),
        _ => panic!("expected an error report"),
    }
    match graph_report(true, "{\"error\": 5, \"plot_path\": \"/tmp/p.png\"}") {
        Ok(GraphReport::ReportedError(t)) => assert_eq!(t, "Desconocido"),
        _ => panic!("expected an error report"),
    }
}

#[test]
fn plot_path_is_reported() {
    match graph_report(true, "{\"plot_path\": \"/app/plots/memory.png\"}") {
        Ok(GraphReport::PlotPath(t)) => assert_eq!(t, "/app/plots/memory.png"),
        _ => panic!("expected a plot path"),
    }
    match graph_report(true, "{\"plot_path\": null}") {
        Ok(GraphReport::PlotPath(t)) => assert_eq!(t, "No disponible"),
        _ => panic!("expected a plot path"),
    }
}

#[test]
fn reply_without_members_is_silent() {
    assert!(matches!(graph_report(true, "{}"), Ok(GraphReport::Silent)));
    assert!(matches!(graph_report(true, "[1, 2]"), Ok(GraphReport::Silent)));
    assert!(matches!(graph_report(true, "\"error\""), Ok(GraphReport::Silent)));
}

#[test]
fn invalid_json_is_an_error() {
    match graph_report(true, "<html>oops</html>") {
        Err(GraphError::InvalidJson(m)) => assert!(!m.is_empty()),
        _ => panic!("expected a JSON error"),
    }
}

#[test]
fn classify_prefers_error_over_plot_path() {
    let r = classify_graph_reply(Some(Some("bad".to_string())), Some(Some("/p".to_string())));
    assert!(matches!(r, GraphReport::ReportedError(ref t) if t == "bad"));
    assert!(matches!(classify_graph_reply(None, None), GraphReport::Silent));
    assert!(matches!(classify_graph_reply(None, Some(None)), GraphReport::PlotPath(ref t) if t == "No disponible"));
    assert!(matches!(classify_graph_reply(Some(None), None), GraphReport::ReportedError(ref t) if t == "Desconocido"));
}

#[test]
fn get_img_does_nothing() {
    get_img();
}

#[test]
fn disciplines_route_to_their_service() {
    assert_eq!(get_server_for_discipline(1), "service-50051.grpc-app.svc.cluster.local:50051");
    assert_eq!(get_server_for_discipline(2), "service-50052.grpc-app.svc.cluster.local:50052");
    assert_eq!(get_server_for_discipline(3), "service-50053.grpc-app.svc.cluster.local:50053");
    assert_eq!(get_server_for_discipline(0), "service-50051.grpc-app.svc.cluster.local:50051");
    assert_eq!(get_server_for_discipline(-7), "service-50051.grpc-app.svc.cluster.local:50051");
    assert_eq!(get_server_for_discipline(4), "service-50051.grpc-app.svc.cluster.local:50051");
}

#[test]
fn student_reply_prefers_first_reply() {
    assert_eq!(student_reply(Some("Discipline 2: ok".to_string())), "Discipline 2: ok");
    assert_eq!(student_reply(None), "No se han recibido respuestas");
}

#[test]
fn mem_info_at_renders_the_reading() {
    let m = mem_info_at(&reading(), Some((1_700_000_000, 0))).unwrap();
    assert_eq!(m.timestamp, "14/11/2023 22:13:20");
    assert_eq!((m.total_ram, m.free_ram, m.used_ram), (8_000_000, 1_000_000, 7_000_000));
    let epoch = mem_info_at(&reading(), Some((0, 999_999_999))).unwrap();
    assert_eq!(epoch.timestamp, "01/01/1970 00:00:00");
    let last = mem_info_at(&reading(), Some((253_402_300_799, 0))).unwrap();
    assert_eq!(last.timestamp, "31/12/9999 23:59:59");
}

#[test]
fn mem_info_at_without_reading_or_beyond_range_is_none() {
    assert!(mem_info_at(&reading(), None).is_none());
    assert!(mem_info_at(&reading(), Some((u64::MAX, 0))).is_none());
    assert!(mem_info_at(&reading(), Some((i64::MAX as u64, 0))).is_none());
}
