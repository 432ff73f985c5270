use bingimage::attribution::attribution_document;
use bingimage::metadata::{decode_metadata, metadata_from_texts, FetchError, ImageMetadata};
use bingimage::orchestrator::{
    plan_run, plan_tasks, run_succeeded, task_step, Outcome, Payload, Stage, TaskAction,
    TaskEvent, TaskFailure, TaskPhase, TaskSpec, TaskWork,
};
use bingimage::resolution::{parse_resolution, u16_to_dec, Resolution};
use bingimage::urls::{derive_url, file_name_for, replace_marker};

fn sample_metadata() -> ImageMetadata {
    ImageMetadata {
        url_template: String::from("/th?id=OHR.Sample_1920x1080.jpg"),
        title: String::from("Example"),
        copyright: String::from("© 2024"),
    }
}

#[test]
fn canonical_text_of_resolution() {
    assert_eq!(Resolution::new(1920, 1080).to_string(), "1920x1080");
    assert_eq!(Resolution::new(0, 0).to_string(), "0x0");
    assert_eq!(Resolution::new(65535, 1).to_string(), "65535x1");
}

#[test]
fn decimal_rendering_exact() {
    assert_eq!(u16_to_dec(0), "0");
    assert_eq!(u16_to_dec(7), "7");
    assert_eq!(u16_to_dec(10), "10");
    assert_eq!(u16_to_dec(65535), "65535");
}

#[test]
fn parse_round_trips_canonical_text() {
    let cases = [(1920u16, 1080u16), (0, 0), (800, 600), (65535, 65535), (1, 99)];
    for (w, h) in cases {
        let r = Resolution::new(w, h);
        let text = r.to_string();
        let parsed = parse_resolution(&text).expect("canonical text must parse");
        assert_eq!(parsed.width, w);
        assert_eq!(parsed.height, h);
    }
}

#[test]
fn parse_accepts_leading_zeros() {
    let r = parse_resolution("012x5").expect("leading zeros are accepted");
    assert_eq!(r.width, 12);
    assert_eq!(r.height, 5);
}

#[test]
fn parse_rejects_malformed_texts() {
    for bad in ["", "x", "800", "800x", "x600", "1x2x3", "axb", "8 0x5", "-1x5", "70000x100"] {
        assert!(parse_resolution(bad).is_none(), "{:?} must be rejected", bad);
    }
}

#[test]
fn url_derivation_replaces_every_marker() {
    let r = Resolution::new(800, 600);
    assert_eq!(
        derive_url("/th?id=OHR.Sample_1920x1080.jpg", &r),
        "https://bing.com/th?id=OHR.Sample_800x600.jpg"
    );
    assert_eq!(
        derive_url("/a_1920x1080_b_1920x1080.jpg", &r),
        "https://bing.com/a_800x600_b_800x600.jpg"
    );
}

#[test]
fn url_derivation_without_marker_only_prefixes() {
    let r = Resolution::new(800, 600);
    assert_eq!(derive_url("/plain.jpg", &r), "https://bing.com/plain.jpg");
    assert_eq!(derive_url("", &r), "https://bing.com");
}

#[test]
fn marker_replacement_exact() {
    assert_eq!(replace_marker("abcabc", "b", "XY"), "aXYcaXYc");
    assert_eq!(replace_marker("aaaa", "aa", "b"), "bb");
    assert_eq!(replace_marker("none", "zz", "b"), "none");
}

#[test]
fn image_file_names_follow_resolutions() {
    assert_eq!(file_name_for(&Resolution::new(1920, 1080)), "1920x1080.jpg");
    assert_eq!(file_name_for(&Resolution::new(1, 2)), "1x2.jpg");
}

#[test]
fn plan_has_one_task_per_resolution() {
    let meta = sample_metadata();
    let rs = vec![
        Resolution::new(1920, 1080),
        Resolution::new(800, 600),
        Resolution::new(1280, 720),
    ];
    let plan = plan_tasks(&meta, &rs, false);
    assert_eq!(plan.len(), 3);
    let names: Vec<&str> = plan.iter().map(|t| t.file_name.as_str()).collect();
    assert_eq!(names, ["1920x1080.jpg", "800x600.jpg", "1280x720.jpg"]);
    for (task, r) in plan.iter().zip(rs.iter()) {
        match &task.work {
            TaskWork::FetchImage { url } => {
                assert_eq!(
                    *url,
                    format!("https://bing.com/th?id=OHR.Sample_{}x{}.jpg", r.width, r.height)
                );
            }
            TaskWork::WriteDoc { .. } => panic!("image task expected"),
        }
    }
}

#[test]
fn plan_adds_one_attribution_task_when_asked() {
    let meta = sample_metadata();
    let rs = vec![Resolution::new(1920, 1080)];
    let plan = plan_tasks(&meta, &rs, true);
    assert_eq!(plan.len(), 2);
    assert_eq!(plan[1].file_name, "README.md");
    match &plan[1].work {
        TaskWork::WriteDoc { content } => assert_eq!(content, "# Example\n## © 2024\n"),
        TaskWork::FetchImage { .. } => panic!("attribution task expected"),
    }
}

#[test]
fn attribution_document_exact_content() {
    assert_eq!(attribution_document("Example", "© 2024"), "# Example\n## © 2024\n");
    assert_eq!(attribution_document("", ""), "# \n## \n");
}

#[test]
fn planning_twice_gives_the_same_plan() {
    let meta = sample_metadata();
    let meta2 = sample_metadata();
    let rs = vec![Resolution::new(1920, 1080), Resolution::new(640, 480)];
    let p1 = plan_tasks(&meta, &rs, true);
    let p2 = plan_tasks(&meta2, &rs, true);
    assert_eq!(p1.len(), p2.len());
    for (a, b) in p1.iter().zip(p2.iter()) {
        assert_eq!(a.file_name, b.file_name);
        match (&a.work, &b.work) {
            (TaskWork::FetchImage { url: ua }, TaskWork::FetchImage { url: ub }) => {
                assert_eq!(ua, ub)
            }
            (TaskWork::WriteDoc { content: ca }, TaskWork::WriteDoc { content: cb }) => {
                assert_eq!(ca, cb)
            }
            _ => panic!("plans disagree on a task's kind"),
        }
    }
}

#[test]
fn metadata_failure_prevents_all_tasks() {
    let rs = vec![Resolution::new(1920, 1080), Resolution::new(800, 600)];
    let failed: Result<ImageMetadata, FetchError> =
        Err(FetchError::Network { message: String::from("connection refused") });
    match plan_run(failed, &rs, true) {
        Err(FetchError::Network { message }) => assert_eq!(message, "connection refused"),
        _ => panic!("a failed metadata fetch must abort the run before fan-out"),
    }
}

#[test]
fn successful_metadata_fans_out() {
    let rs = vec![Resolution::new(1920, 1080)];
    let ok: Result<ImageMetadata, FetchError> = Ok(sample_metadata());
    let plan = plan_run(ok, &rs, false).expect("fan-out follows a successful fetch");
    assert_eq!(plan.len(), 1);
}

#[test]
fn decode_metadata_extracts_and_strips_quotes() {
    let body = "{\"images\":[{\"url\":\"/th?id=OHR.Pic_1920x1080.jpg\",\"title\":\"A Title\",\"copyright\":\"© Somebody\"}]}";
    let meta = decode_metadata(body).expect("well-formed envelope must decode");
    assert_eq!(meta.url_template, "/th?id=OHR.Pic_1920x1080.jpg");
    assert_eq!(meta.title, "A Title");
    assert_eq!(meta.copyright, "© Somebody");
}

#[test]
fn decode_metadata_rejects_invalid_json() {
    match decode_metadata("not json at all {") {
        Err(FetchError::Decode { .. }) => {}
        _ => panic!("invalid JSON must be a decode failure"),
    }
}

#[test]
fn decode_metadata_rejects_missing_parts() {
    for body in [
        "{}",
        "{\"images\":[]}",
        "{\"images\":{}}",
        "{\"images\":[{\"title\":\"t\",\"copyright\":\"c\"}]}",
        "{\"images\":[{\"url\":\"u\",\"copyright\":\"c\"}]}",
        "{\"images\":[{\"url\":\"u\",\"title\":\"t\"}]}",
    ] {
        match decode_metadata(body) {
            Err(FetchError::Decode { .. }) => {}
            _ => panic!("{:?} must be a decode failure", body),
        }
    }
}

#[test]
fn decode_metadata_keeps_non_string_fields_as_their_rendering() {
    let body = "{\"images\":[{\"url\":\"/u.jpg\",\"title\":42,\"copyright\":\"c\"}]}";
    let meta = decode_metadata(body).expect("the field only needs to be present");
    assert_eq!(meta.title, "42");
}

#[test]
fn quote_trimming_removes_outer_quotes_only() {
    let m = metadata_from_texts("\"abc\"", "\"\"x\"\"", "inner \"q\" kept");
    assert_eq!(m.url_template, "abc");
    assert_eq!(m.title, "x");
    assert_eq!(m.copyright, "inner \"q\" kept");
}

#[test]
fn image_task_runs_through_all_stages() {
    let meta = sample_metadata();
    let rs = vec![Resolution::new(800, 600)];
    let plan = plan_tasks(&meta, &rs, false);
    let task = &plan[0];
    let (phase, action) = task_step(task, TaskPhase::Ready, TaskEvent::Start);
    assert!(matches!(action, TaskAction::Fetch));
    let fetched = vec![10u8, 20, 30, 40];
    let (phase, action) = task_step(task, phase, TaskEvent::FetchOk { bytes: fetched.clone() });
    assert!(matches!(action, TaskAction::CreateFile));
    let (phase, action) = task_step(task, phase, TaskEvent::CreateOk);
    match &action {
        TaskAction::WriteAll { payload: Payload::Image(bytes) } => {
            assert_eq!(*bytes, fetched, "the write carries the fetched bytes verbatim")
        }
        _ => panic!("a full write of the fetched bytes expected"),
    }
    let (phase, action) = task_step(task, phase, TaskEvent::WriteOk { written: 4 });
    assert!(matches!(action, TaskAction::SyncFile));
    let (phase, action) = task_step(task, phase, TaskEvent::SyncOk);
    assert!(matches!(action, TaskAction::Stop));
    match phase {
        TaskPhase::Done { outcome: Outcome::Success { file_name } } => {
            assert_eq!(file_name, "800x600.jpg")
        }
        _ => panic!("a task that passed every stage must succeed"),
    }
}

#[test]
fn attribution_task_needs_no_network() {
    let meta = sample_metadata();
    let rs: Vec<Resolution> = vec![];
    let plan = plan_tasks(&meta, &rs, true);
    assert_eq!(plan.len(), 1);
    let task = &plan[0];
    let (phase, action) = task_step(task, TaskPhase::Ready, TaskEvent::Start);
    assert!(matches!(action, TaskAction::CreateFile), "the attribution task starts at the file");
    let doc = match &task.work {
        TaskWork::WriteDoc { content } => content.clone(),
        TaskWork::FetchImage { .. } => panic!("attribution task expected"),
    };
    match &phase {
        TaskPhase::Creating { payload: Payload::Text(content) } => {
            assert_eq!(*content, doc, "the task persists its own document text")
        }
        _ => panic!("creating phase with the document expected"),
    }
    let (phase, action) = task_step(task, phase, TaskEvent::CreateOk);
    assert!(matches!(action, TaskAction::WriteAll { .. }));
    match &phase {
        TaskPhase::Writing { expected } => assert_eq!(*expected, doc.as_bytes().len()),
        _ => panic!("writing phase expected"),
    }
    let (phase, action) = task_step(task, phase, TaskEvent::WriteOk { written: doc.as_bytes().len() });
    assert!(matches!(action, TaskAction::SyncFile));
    let (phase, _) = task_step(task, phase, TaskEvent::SyncOk);
    match phase {
        TaskPhase::Done { outcome: Outcome::Success { file_name } } => {
            assert_eq!(file_name, "README.md")
        }
        _ => panic!("the attribution task succeeds once its document is durable"),
    }
}

#[test]
fn sibling_failure_leaves_other_tasks_and_run_status_alone() {
    let meta = sample_metadata();
    let rs = vec![Resolution::new(800, 600), Resolution::new(1024, 768)];
    let plan = plan_tasks(&meta, &rs, false);

    let (phase_a, _) = task_step(&plan[0], TaskPhase::Ready, TaskEvent::Start);
    let (phase_a, action_a) = task_step(
        &plan[0],
        phase_a,
        TaskEvent::FetchErr { message: String::from("transport error") },
    );
    assert!(matches!(action_a, TaskAction::Stop));
    let outcome_a = match phase_a {
        TaskPhase::Done { outcome } => outcome,
        _ => panic!("a fetch failure ends the task"),
    };
    assert!(matches!(
        &outcome_a,
        Outcome::Failure(TaskFailure::Network { message }) if message == "transport error"
    ));

    let (phase_b, _) = task_step(&plan[1], TaskPhase::Ready, TaskEvent::Start);
    let (phase_b, _) = task_step(&plan[1], phase_b, TaskEvent::FetchOk { bytes: vec![7u8, 8] });
    let (phase_b, _) = task_step(&plan[1], phase_b, TaskEvent::CreateOk);
    let (phase_b, _) = task_step(&plan[1], phase_b, TaskEvent::WriteOk { written: 2 });
    let (phase_b, _) = task_step(&plan[1], phase_b, TaskEvent::SyncOk);
    let outcome_b = match phase_b {
        TaskPhase::Done { outcome } => outcome,
        _ => panic!("the sibling task runs to completion"),
    };
    assert!(matches!(
        &outcome_b,
        Outcome::Success { file_name } if file_name == "1024x768.jpg"
    ));

    assert!(run_succeeded(&vec![outcome_a, outcome_b]));
}

#[test]
fn short_write_surfaces_as_write_failure() {
    let meta = sample_metadata();
    let rs = vec![Resolution::new(800, 600)];
    let plan = plan_tasks(&meta, &rs, false);
    let task = &plan[0];
    let (phase, _) = task_step(task, TaskPhase::Ready, TaskEvent::Start);
    let (phase, _) = task_step(task, phase, TaskEvent::FetchOk { bytes: vec![0u8; 10] });
    let (phase, _) = task_step(task, phase, TaskEvent::CreateOk);
    let (phase, action) = task_step(task, phase, TaskEvent::WriteOk { written: 3 });
    assert!(matches!(action, TaskAction::Stop));
    match phase {
        TaskPhase::Done { outcome: Outcome::Failure(f) } => {
            assert!(matches!(f, TaskFailure::ShortWrite { written: 3, expected: 10 }));
            assert!(matches!(f.stage(), Stage::WriteFile));
        }
        _ => panic!("a short write must surface as a task-local failure"),
    }
}

#[test]
fn sync_failure_surfaces_as_sync_failure() {
    let meta = sample_metadata();
    let rs = vec![Resolution::new(800, 600)];
    let plan = plan_tasks(&meta, &rs, false);
    let task = &plan[0];
    let (phase, _) = task_step(task, TaskPhase::Ready, TaskEvent::Start);
    let (phase, _) = task_step(task, phase, TaskEvent::FetchOk { bytes: vec![0u8; 10] });
    let (phase, _) = task_step(task, phase, TaskEvent::CreateOk);
    let (phase, _) = task_step(task, phase, TaskEvent::WriteOk { written: 10 });
    let (phase, action) = task_step(task, phase, TaskEvent::SyncErr {
        message: String::from("device error"),
    });
    assert!(matches!(action, TaskAction::Stop));
    match phase {
        TaskPhase::Done { outcome: Outcome::Failure(f) } => {
            assert!(matches!(
                &f,
                TaskFailure::SyncFailed { message } if message == "device error"
            ));
            assert!(matches!(f.stage(), Stage::SyncFile));
        }
        _ => panic!("a sync failure must surface as a task-local failure"),
    }
}

#[test]
fn create_and_write_errors_surface_with_their_stage() {
    let meta = sample_metadata();
    let rs = vec![Resolution::new(800, 600)];
    let plan = plan_tasks(&meta, &rs, false);
    let task = &plan[0];

    let (phase, _) = task_step(task, TaskPhase::Ready, TaskEvent::Start);
    let (phase, _) = task_step(task, phase, TaskEvent::FetchOk { bytes: vec![1u8] });
    let (phase, _) = task_step(task, phase, TaskEvent::CreateErr {
        message: String::from("permission denied"),
    });
    match phase {
        TaskPhase::Done { outcome: Outcome::Failure(f) } => {
            assert!(matches!(f.stage(), Stage::CreateFile))
        }
        _ => panic!("a create failure ends the task"),
    }

    let (phase, _) = task_step(task, TaskPhase::Ready, TaskEvent::Start);
    let (phase, _) = task_step(task, phase, TaskEvent::FetchOk { bytes: vec![1u8] });
    let (phase, _) = task_step(task, phase, TaskEvent::CreateOk);
    let (phase, _) = task_step(task, phase, TaskEvent::WriteErr {
        message: String::from("disk full"),
    });
    match phase {
        TaskPhase::Done { outcome: Outcome::Failure(f) } => {
            assert!(matches!(f.stage(), Stage::WriteFile))
        }
        _ => panic!("a write failure ends the task"),
    }
}

#[test]
fn run_status_ignores_task_outcomes() {
    assert!(run_succeeded(&vec![]));
    assert!(run_succeeded(&vec![Outcome::Failure(TaskFailure::WriteFailed {
        message: String::from("disk full"),
    })]));
}

#[test]
fn decoded_metadata_feeds_url_derivation() {
    let body = "{\"images\":[{\"url\":\"/th?id=OHR.Pic_1920x1080.jpg\",\"title\":\"t\",\"copyright\":\"c\"}]}";
    let meta = decode_metadata(body).expect("well-formed envelope must decode");
    let url = derive_url(&meta.url_template, &Resolution::new(640, 480));
    assert_eq!(url, "https://bing.com/th?id=OHR.Pic_640x480.jpg");
}

#[test]
fn build_task_spec_directly() {
    let task = TaskSpec {
        file_name: String::from("5x5.jpg"),
        work: TaskWork::FetchImage { url: String::from("https://bing.com/a.jpg") },
    };
    let (_, action) = task_step(&task, TaskPhase::Ready, TaskEvent::Start);
    assert!(matches!(action, TaskAction::Fetch));
}
