use pg_stats_exporter::channel::ChunkReceiver;
use pg_stats_exporter::encoder::encode_family;
use pg_stats_exporter::encoder::format_type;
use pg_stats_exporter::handler::begin_metrics_response;
use pg_stats_exporter::handler::metrics_response_head;
use pg_stats_exporter::handler::stream_metrics;
use pg_stats_exporter::handler::stream_report;
use pg_stats_exporter::handler::write_exposition;
use pg_stats_exporter::handler::StreamError;
use pg_stats_exporter::handler::BUFFER_SIZE;
use pg_stats_exporter::metrics::cpustats_metrics;
use pg_stats_exporter::metrics::gather;
use pg_stats_exporter::metrics::tablespaces_metrics;
use pg_stats_exporter::metrics::CpuStatRow;
use pg_stats_exporter::metrics::MetricFamily;
use pg_stats_exporter::metrics::StoreSnapshot;
use pg_stats_exporter::metrics::TablespaceRow;
use pg_stats_exporter::routes::ApiError;
use pg_stats_exporter::routes::Cause;
use pg_stats_exporter::routes::LogLevel;
use pg_stats_exporter::writer::bridge;
use prometheus::Encoder;
use prometheus::IntGauge;
use prometheus::TextEncoder;
use tokio::runtime::Runtime;
use tokio::task::JoinHandle;

fn runtime() -> Runtime {
    tokio::runtime::Builder::new_multi_thread()
        .worker_threads(2)
        .enable_all()
        .build()
        .unwrap()
}

fn collect(rt: &Runtime, mut rx: ChunkReceiver) -> JoinHandle<Vec<std::io::Result<Vec<u8>>>> {
    rt.spawn(async move {
        let mut items = Vec::new();
        while let Some(item) = rx.recv().await {
            items.push(item.map(|chunk| chunk.to_vec()));
        }
        items
    })
}

fn cpu(id: &str, system: i64, idle: i64, iowait: i64) -> CpuStatRow {
    CpuStatRow {
        cpu_id: id.to_string(),
        cpu_system: system,
        cpu_idle: idle,
        cpu_iowait: iowait,
    }
}

fn tablespace(name: &str, location: &str, avail: i64, total: i64) -> TablespaceRow {
    TablespaceRow {
        name: name.to_string(),
        location: location.to_string(),
        avail,
        total,
    }
}

fn family(name: &str, help: &str, value: i64) -> MetricFamily {
    MetricFamily {
        name: name.to_string(),
        help: help.to_string(),
        value,
    }
}

/// What the encoder gives for the whole list at once, with nothing streamed.
fn encode_at_once(families: &[MetricFamily]) -> Vec<u8> {
    let mut all = Vec::new();
    for f in families {
        let gauge = IntGauge::new(f.name.clone(), f.help.clone()).unwrap();
        gauge.set(f.value);
        all.extend(prometheus::core::Collector::collect(&gauge));
    }
    let mut out = Vec::new();
    TextEncoder::new().encode(&all, &mut out).unwrap();
    out
}

#[test]
fn cpustats_gives_three_gauges_a_row() {
    let metrics = cpustats_metrics(&vec![cpu("cpu0", 11, 22, 33)]);
    assert_eq!(
        metrics,
        vec![
            family(
                "cpustats_cpu0_cpu_system",
                "The amount of time CPUs spent in running the operating system functions",
                11
            ),
            family(
                "cpustats_cpu0_cpu_idle",
                "The amount of time CPUs weren't  busy",
                22
            ),
            family(
                "cpustats_cpu0_cpu_iowait",
                "The amount of time CPUs where idle during which the system had pending I/O requests",
                33
            ),
        ]
    );
}

#[test]
fn tablespaces_gives_two_gauges_a_row() {
    let metrics = tablespaces_metrics(&vec![
        tablespace("pg_default", "/var/lib/pg", 100, 500),
        tablespace("fast", "/mnt/ssd", -1, i64::MAX),
    ]);
    assert_eq!(
        metrics,
        vec![
            family("tablespaces_pg_default_avail", "Available space in /var/lib/pg", 100),
            family("tablespaces_pg_default_total", "Total space in /var/lib/pg", 500),
            family("tablespaces_fast_avail", "Available space in /mnt/ssd", -1),
            family("tablespaces_fast_total", "Total space in /mnt/ssd", i64::MAX),
        ]
    );
}

#[test]
fn no_rows_give_no_families() {
    assert!(cpustats_metrics(&vec![]).is_empty());
    assert!(tablespaces_metrics(&vec![]).is_empty());
    let only_cpu = gather(Ok(StoreSnapshot {
        cpustats: vec![cpu("0", 1, 2, 3)],
        tablespaces: vec![],
    }))
    .unwrap();
    assert_eq!(only_cpu.len(), 3);
    assert!(only_cpu.iter().all(|f| f.name.starts_with("cpustats_0_")));
    let only_tablespaces = gather(Ok(StoreSnapshot {
        cpustats: vec![],
        tablespaces: vec![tablespace("t", "/t", 1, 2)],
    }))
    .unwrap();
    assert_eq!(only_tablespaces.len(), 2);
    assert!(only_tablespaces.iter().all(|f| f.name.starts_with("tablespaces_t_")));
    let nothing = gather(Ok(StoreSnapshot {
        cpustats: vec![],
        tablespaces: vec![],
    }))
    .unwrap();
    assert!(nothing.is_empty());
}

#[test]
fn gather_puts_cpu_gauges_before_tablespace_gauges() {
    let families = gather(Ok(StoreSnapshot {
        cpustats: vec![cpu("0", 1, 2, 3), cpu("1", 4, 5, 6)],
        tablespaces: vec![tablespace("main", "/data", 7, 8)],
    }))
    .unwrap();
    let names: Vec<&str> = families.iter().map(|f| f.name.as_str()).collect();
    assert_eq!(
        names,
        vec![
            "cpustats_0_cpu_system",
            "cpustats_0_cpu_idle",
            "cpustats_0_cpu_iowait",
            "cpustats_1_cpu_system",
            "cpustats_1_cpu_idle",
            "cpustats_1_cpu_iowait",
            "tablespaces_main_avail",
            "tablespaces_main_total",
        ]
    );
    let values: Vec<i64> = families.iter().map(|f| f.value).collect();
    assert_eq!(values, vec![1, 2, 3, 4, 5, 6, 7, 8]);
}

#[test]
fn a_failed_fetch_is_an_internal_server_error() {
    let cause = Cause {
        display: "connection refused".to_string(),
        debug: "Error { kind: Connect, cause: refused }".to_string(),
    };
    assert_eq!(
        gather(Err(cause.clone())),
        Err(ApiError::InternalServerError(cause))
    );
}

#[test]
fn one_family_is_encoded_as_the_text_format_has_it() {
    let text = encode_family(&family("up_total", "Whether it is up", 42)).unwrap();
    assert_eq!(
        String::from_utf8(text).unwrap(),
        "# HELP up_total Whether it is up\n# TYPE up_total gauge\nup_total 42\n"
    );
    let negative = encode_family(&family("a:b_c", "h", -7)).unwrap();
    assert_eq!(
        String::from_utf8(negative).unwrap(),
        "# HELP a:b_c h\n# TYPE a:b_c gauge\na:b_c -7\n"
    );
}

#[test]
fn a_family_that_the_encoder_refuses_has_no_text() {
    assert_eq!(encode_family(&family("not-a-name", "help", 1)), None);
    assert_eq!(encode_family(&family("", "help", 1)), None);
    assert_eq!(encode_family(&family("0starts_with_digit", "help", 1)), None);
    assert_eq!(encode_family(&family("fine", "", 1)), None);
}

#[test]
fn the_media_type_is_the_encoders() {
    assert_eq!(format_type(), TextEncoder::new().format_type());
    assert_eq!(format_type(), "text/plain; version=0.0.4");
    let head = metrics_response_head();
    assert_eq!(head.status, 200);
    assert_eq!(head.content_type, TextEncoder::new().format_type());
}

#[test]
fn the_buffer_is_128_kib() {
    assert_eq!(BUFFER_SIZE, 128 * 1024);
}

#[test]
fn streamed_chunks_rejoin_to_the_text_encoded_at_once() {
    let families = gather(Ok(StoreSnapshot {
        cpustats: vec![cpu("0", 1, 2, 3), cpu("1", 4, 5, 6)],
        tablespaces: vec![tablespace("main", "/data", 7, 8)],
    }))
    .unwrap();
    let expected = encode_at_once(&families);
    assert!(!expected.is_empty());

    for capacity in [1usize, 7, 64, expected.len() - 1, expected.len(), expected.len() + 1, 4096] {
        let rt = runtime();
        let _guard = rt.enter();
        let (mut writer, rx) = bridge(capacity);
        let reader = collect(&rt, rx);
        assert_eq!(stream_metrics(&families, &mut writer), Ok(expected.len()));
        assert_eq!(writer.flushed_bytes(), expected.len());
        assert_eq!(writer.buffered_len(), 0);
        drop(writer);

        let chunks: Vec<Vec<u8>> = rt
            .block_on(reader)
            .unwrap()
            .into_iter()
            .map(|item| item.unwrap())
            .collect();
        // ceil(S / C) chunks, all but the last of them full
        assert_eq!(chunks.len(), (expected.len() + capacity - 1) / capacity);
        assert!(chunks[..chunks.len() - 1].iter().all(|c| c.len() == capacity));
        assert!(!chunks[chunks.len() - 1].is_empty());
        assert_eq!(chunks.concat(), expected);
    }
}

#[test]
fn metrics_scenario_two_cpus_one_tablespace() {
    let families = gather(Ok(StoreSnapshot {
        cpustats: vec![cpu("0", 10, 20, 30), cpu("1", 40, 50, 60)],
        tablespaces: vec![tablespace("pg_default", "/var/lib/postgresql", 1000, 5000)],
    }))
    .unwrap();
    let head = metrics_response_head();
    assert_eq!(head.status, 200);
    assert_eq!(head.content_type, TextEncoder::new().format_type());

    let rt = runtime();
    let _guard = rt.enter();
    let (mut writer, rx) = bridge(BUFFER_SIZE);
    let reader = collect(&rt, rx);
    let outcome = stream_metrics(&families, &mut writer);
    drop(writer);
    let body: Vec<u8> = rt
        .block_on(reader)
        .unwrap()
        .into_iter()
        .map(|item| item.unwrap())
        .collect::<Vec<_>>()
        .concat();
    assert_eq!(outcome, Ok(body.len()));
    let body = String::from_utf8(body).unwrap();
    for name in [
        "cpustats_0_cpu_system 10\n",
        "cpustats_0_cpu_idle 20\n",
        "cpustats_0_cpu_iowait 30\n",
        "cpustats_1_cpu_system 40\n",
        "cpustats_1_cpu_idle 50\n",
        "cpustats_1_cpu_iowait 60\n",
        "tablespaces_pg_default_avail 1000\n",
        "tablespaces_pg_default_total 5000\n",
    ] {
        assert!(body.contains(name));
    }
    assert_eq!(body.matches("# TYPE ").count(), 8);
    assert_eq!(body.matches(" gauge\n").count(), 8);
    assert!(body.contains("# HELP tablespaces_pg_default_avail Available space in /var/lib/postgresql\n"));

    let report = stream_report(outcome, 12);
    assert_eq!(report.level, LogLevel::Info);
    assert_eq!(report.bytes, Some(body.len()));
    assert_eq!(report.failure, None);
    assert_eq!(report.elapsed_ms, 12);
}

#[test]
fn a_response_begins_with_a_writer_that_has_sent_nothing() {
    let begun = match begin_metrics_response(Ok(StoreSnapshot {
        cpustats: vec![cpu("0", 1, 2, 3)],
        tablespaces: vec![tablespace("main", "/data", 7, 8)],
    })) {
        Ok(begun) => begun,
        Err(error) => panic!("a snapshot begins a response: {error:?}"),
    };
    assert_eq!(begun.head.status, 200);
    assert_eq!(begun.head.content_type, "text/plain; version=0.0.4");
    assert_eq!(begun.families.len(), 5);
    assert_eq!(begun.families[0].name, "cpustats_0_cpu_system");
    assert_eq!(begun.families[4].name, "tablespaces_main_total");
    assert_eq!(begun.writer.buffer_capacity(), BUFFER_SIZE);
    assert_eq!(begun.writer.buffered_len(), 0);
    assert_eq!(begun.writer.flushed_bytes(), 0);
    assert!(!begun.writer.has_failed());
    assert_eq!(begun.body.max_capacity(), 1);
    assert!(begun.body.is_empty());
}

#[test]
fn a_failed_fetch_begins_no_response() {
    let cause = Cause {
        display: "timed out".to_string(),
        debug: "Error { kind: Timeout }".to_string(),
    };
    match begin_metrics_response(Err(cause.clone())) {
        Err(error) => assert_eq!(error, ApiError::InternalServerError(cause)),
        Ok(_) => panic!("no response begins without the store"),
    }
}

#[test]
fn a_refused_first_family_is_reported_before_anything_is_sent() {
    let rt = runtime();
    let _guard = rt.enter();
    let (mut writer, rx) = bridge(4);
    let reader = collect(&rt, rx);
    let families = vec![family("no good", "blank in the name", 1), family("fine", "ok", 2)];
    assert_eq!(
        write_exposition(&families, &mut writer),
        Err(StreamError::Encode(0))
    );
    assert!(!writer.has_failed());
    assert_eq!(writer.buffered_len(), 0);
    assert_eq!(writer.flushed_bytes(), 0);
    drop(writer);
    assert!(rt.block_on(reader).unwrap().is_empty());
}

#[test]
fn no_families_give_an_empty_body() {
    let rt = runtime();
    let _guard = rt.enter();
    let (mut writer, rx) = bridge(8);
    let reader = collect(&rt, rx);
    assert_eq!(stream_metrics(&vec![], &mut writer), Ok(0));
    drop(writer);
    assert!(rt.block_on(reader).unwrap().is_empty());
}

#[test]
fn a_refused_family_cuts_the_stream_short() {
    let rt = runtime();
    let (mut writer, rx) = bridge(1024);
    let reader = collect(&rt, rx);
    let families = vec![
        family("first", "the first", 1),
        family("second one", "has a blank in its name", 2),
        family("third", "the third", 3),
    ];
    let outcome = {
        let _guard = rt.enter();
        write_exposition(&families, &mut writer)
    };
    assert_eq!(outcome, Err(StreamError::Encode(1)));
    // the first family is in the buffer, and the writer is sound
    assert!(!writer.has_failed());
    assert_eq!(writer.buffered_len(), encode_at_once(&families[..1]).len());
    assert_eq!(writer.flushed_bytes(), 0);

    let (mut writer2, rx2) = bridge(1024);
    let reader2 = collect(&rt, rx2);
    assert_eq!(
        stream_metrics(&families, &mut writer2),
        Err(StreamError::Encode(1))
    );
    assert!(writer2.has_failed());
    drop(writer);
    drop(writer2);
    assert!(rt.block_on(reader).unwrap().is_empty());
    let items = rt.block_on(reader2).unwrap();
    assert_eq!(items.len(), 1);
    assert_eq!(
        items[0].as_ref().unwrap_err().kind(),
        std::io::ErrorKind::BrokenPipe
    );

    let report = stream_report(Err(StreamError::Encode(1)), 3);
    assert_eq!(report.level, LogLevel::Warn);
    assert_eq!(report.bytes, None);
    assert_eq!(report.failure, Some(StreamError::Encode(1)));
}

#[test]
fn a_client_that_hangs_up_stops_the_stream() {
    let rt = runtime();
    let _guard = rt.enter();
    let (mut writer, mut rx) = bridge(16);
    let reader = rt.spawn(async move { rx.recv().await.map(|item| item.unwrap().to_vec()) });
    let mut rows = Vec::new();
    for i in 0..50 {
        rows.push(cpu(&i.to_string(), i, i + 1, i + 2));
    }
    let families = cpustats_metrics(&rows);
    let expected = encode_at_once(&families);

    let outcome = stream_metrics(&families, &mut writer);
    assert_eq!(outcome, Err(StreamError::BrokenPipe));
    assert!(writer.has_failed());
    assert!(writer.flushed_bytes() < expected.len());
    assert_eq!(writer.flushed_bytes() % 16, 0);
    assert_eq!(rt.block_on(reader).unwrap(), Some(expected[..16].to_vec()));

    let report = stream_report(outcome, 5);
    assert_eq!(report.level, LogLevel::Warn);
    assert_eq!(report.failure, Some(StreamError::BrokenPipe));
}

#[test]
fn a_broken_writer_streams_nothing() {
    let rt = runtime();
    let _guard = rt.enter();
    let (mut writer, rx) = bridge(4);
    drop(rx);
    assert!(writer.write(&[0; 5]).is_err());
    assert_eq!(
        write_exposition(&vec![family("ok", "fine", 1)], &mut writer),
        Err(StreamError::BrokenPipe)
    );
    assert_eq!(
        write_exposition(&vec![family("not ok", "fine", 1)], &mut writer),
        Err(StreamError::BrokenPipe)
    );
    assert_eq!(writer.flushed_bytes(), 0);
}
