use localbench::json::Json;
use localbench::screen::{
    bench_args, bench_exe_name, bench_shape, group_shapes, parse_bench_json, rank_by, ranking,
    row_key, row_matches, same_shape, shape_of_row, BenchFlag, BenchParams, BenchShape, LoadFlags,
};

fn params(ub: i64, fa: bool, threads: i64) -> BenchParams {
    BenchParams {
        n_gpu_layers: None,
        n_cpu_moe: Some(36),
        mlock: None,
        no_mmap: Some(true),
        ubatch_size: Some(ub),
        batch_size: Some(2048),
        flash_attn: Some(fa),
        threads: Some(threads),
    }
}

fn shape(ub: i64, threads: i64, load: LoadFlags) -> BenchShape {
    bench_shape(&params(ub, true, threads), "q8_0", "q8_0", load)
}

fn flag(flag: &str, value: &str) -> BenchFlag {
    BenchFlag {
        flag: flag.to_string(),
        value: value.to_string(),
    }
}

#[test]
fn a_group_sweeps_its_context_values_in_one_process() {
    let shapes = vec![
        shape(512, 12, LoadFlags::LoadMode),
        shape(1024, 16, LoadFlags::LoadMode),
    ];
    assert_eq!(shapes[0].model, shapes[1].model);
    let args = bench_args("m.gguf", &shapes[0].model, &shapes, &vec![0, 1]).join(" ");
    assert!(
        args.starts_with("-m m.gguf -ngl 99 -ncmoe 36 -lm none "),
        "{args}"
    );
    assert!(args.contains("-ub 512,1024"), "{args}");
    assert!(args.contains("-t 12,16"), "{args}");
    assert!(args.contains("-fa on "), "{args}");
    assert!(args.ends_with("-p 2048 -n 128 -r 2 -o json"), "{args}");
    // Each value once, and the flags in order.
    assert!(args.contains("-b 2048 -ctk q8_0 -ctv q8_0 -fa on -t 12,16 -ub 512,1024 -p"), "{args}");
}

#[test]
fn legacy_builds_screen_no_mmap_with_the_mmap_axis() {
    let legacy = shape(512, 12, LoadFlags::Legacy);
    assert!(legacy.model.contains(&flag("-mmp", "0")));
    assert!(!legacy.model.iter().any(|f| f.flag == "-lm"));
}

#[test]
fn load_modes_follow_the_lock_and_the_map() {
    for (mlock, no_mmap, expected) in [
        (false, false, None),
        (false, true, Some("none")),
        (true, false, Some("mmap+mlock")),
        (true, true, Some("mlock")),
    ] {
        let mut p = params(512, true, 12);
        p.mlock = Some(mlock);
        p.no_mmap = Some(no_mmap);
        let s = bench_shape(&p, "Q8_0", "F16", LoadFlags::LoadMode);
        let mode = s.model.iter().find(|f| f.flag == "-lm");
        assert_eq!(mode.map(|f| f.value.as_str()), expected);
        assert_eq!(s.context[0], flag("-ctk", "q8_0"));
        assert_eq!(s.context[1], flag("-ctv", "f16"));
    }
    let unset = BenchParams {
        n_gpu_layers: Some(0),
        n_cpu_moe: None,
        mlock: None,
        no_mmap: None,
        ubatch_size: Some(0),
        batch_size: None,
        flash_attn: None,
        threads: Some(-1),
    };
    let s = bench_shape(&unset, "f16", "f16", LoadFlags::Legacy);
    assert_eq!(s.model, [flag("-ngl", "99"), flag("-ncmoe", "0")]);
    assert_eq!(s.context.len(), 2);
}

const ROWS: &str = r#"[
  {"n_prompt":2048,"n_gen":0,"avg_ts":200.0,"type_k":"q8_0","type_v":"q8_0","n_ubatch":512,"n_batch":2048,"n_threads":12,"flash_attn":1},
  {"n_prompt":0,"n_gen":128,"avg_ts":26.5,"type_k":"q8_0","type_v":"q8_0","n_ubatch":512,"n_batch":2048,"n_threads":12,"flash_attn":1},
  {"n_prompt":2048,"n_gen":0,"avg_ts":210.0,"type_k":"q8_0","type_v":"q8_0","n_ubatch":1024,"n_batch":2048,"n_threads":16,"flash_attn":1}
]"#;

#[test]
fn bench_rows_map_back_to_their_shape() {
    let rows = parse_bench_json(ROWS);
    let a = shape(512, 12, LoadFlags::LoadMode);
    let row = rows.iter().find(|r| row_matches(&r.key, &a)).unwrap();
    assert_eq!(row.prompt, Json::read("200.0"));
    assert_eq!(row.generation, Json::read("26.5"));
    assert!(row.key.contains(&flag("-t", "12")));
    let b = shape(1024, 12, LoadFlags::LoadMode);
    assert!(
        !rows.iter().any(|r| row_matches(&r.key, &b)),
        "threads differ"
    );
    assert_eq!(rows.len(), 2);
}

#[test]
fn rows_without_their_flags_are_passed_over() {
    assert!(parse_bench_json("not json").is_empty());
    assert!(parse_bench_json("{}").is_empty());
    assert!(parse_bench_json(r#" [{"type_k":"q8_0"}] "#).is_empty());
    let row = Json::read(
        r#"{"type_k":"f16","type_v":"f16","n_ubatch":1,"n_batch":2,"n_threads":3,"flash_attn":false}"#,
    )
    .unwrap();
    let key = row_key(&row).unwrap();
    assert!(key.contains(&flag("-fa", "off")));
    assert_eq!(
        key.iter().map(|f| f.flag.as_str()).collect::<Vec<_>>(),
        ["-b", "-ctk", "-ctv", "-fa", "-t", "-ub"]
    );
    let row = Json::read(
        r#"{"type_k":"f16","type_v":"f16","n_ubatch":1,"n_batch":2,"n_threads":3,"flash_attn":"x"}"#,
    )
    .unwrap();
    assert_eq!(row_key(&row).unwrap().len(), 5);
}

#[test]
fn candidates_group_by_what_reloads_the_model() {
    let mut moe = params(512, true, 12);
    moe.n_cpu_moe = Some(30);
    let shapes = vec![
        shape(512, 12, LoadFlags::LoadMode),
        bench_shape(&moe, "q8_0", "q8_0", LoadFlags::LoadMode),
        shape(1024, 16, LoadFlags::LoadMode),
    ];
    // "-ncmoe 30" stands before "-ncmoe 36".
    assert_eq!(group_shapes(&shapes), vec![vec![1], vec![0, 2]]);
    assert!(same_shape(&shapes[0], &shapes[0].clone()));
    assert!(!same_shape(&shapes[0], &shapes[2]));
    let rows = parse_bench_json(ROWS);
    // "-t 12" stands before "-t 16".
    assert_eq!(shape_of_row(&rows[1].key, &shapes, &vec![0, 2]), Some(2));
    assert_eq!(shape_of_row(&rows[1].key, &shapes, &vec![0]), None);
}

#[test]
fn ranking_is_descending_and_keeps_ties_in_order() {
    assert_eq!(rank_by(&vec![3, 9, 3, 7]), [1, 3, 0, 2]);
    assert!(rank_by(&vec![]).is_empty());
    assert_eq!(bench_exe_name(true), "llama-bench.exe");
    assert_eq!(bench_exe_name(false), "llama-bench");
}

#[test]
fn a_screen_that_matched_nothing_gives_no_ranking() {
    assert_eq!(ranking(0, &vec![3, 9]), None);
    assert_eq!(ranking(1, &vec![3, 9, 3]), Some(vec![1, 0, 2]));
    assert_eq!(ranking(2, &vec![]), Some(vec![]));
}

#[test]
fn rows_stand_in_the_order_of_their_flags() {
    let row = |ub: u32, rate: u32| {
        format!(
            r#"{{"n_prompt":1,"avg_ts":{rate},"type_k":"f16","type_v":"f16","n_ubatch":{ub},"n_batch":2048,"n_threads":8}}"#
        )
    };
    let text = format!("[{},{},{}]", row(512, 1), row(1024, 2), row(512, 3));
    let rows = parse_bench_json(&text);
    assert_eq!(rows.len(), 2);
    // Values are ordered as texts: "1024" stands before "512".
    assert!(rows[0].key.contains(&flag("-ub", "1024")));
    assert_eq!(rows[1].prompt, Some(Json::Unsigned(3)));
}
