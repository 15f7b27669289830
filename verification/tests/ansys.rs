use openansys_agent::ansys::apdl::{
    accept_generated_apdl, stage2_apdl_needs_generation, strip_code_fences,
    validate_apdl_candidate, CandidateError, GenerationStage,
};
use openansys_agent::ansys::assets::{
    build_input_summary, classify_asset, prepare_input_bundle, InputAsset,
};
use openansys_agent::ansys::config::{
    load_config, DirSource, Environment, ExecutableSource, DEFAULT_ANSYS_EXE,
};
use openansys_agent::ansys::report::{
    classify_ansys_run_issue, contains_ansys_error, extract_blocking_warning_blocks,
    is_blocking_warning_block,
};
use openansys_agent::ansys::validate::{
    ansys_out_indicates_completion, check_deck, k_file_size_issue, tail_start, validate_k_file,
    validate_stage1_model_requirements, validate_stage2_apdl_strategy,
    validate_stage2_export_requirements, wait_for_ansys_completion, KFileState, KFileText, WaitStep,
};

#[test]
fn strips_markdown_fences() {
    let text = "```apdl\n/prep7\nfinish\n```";
    assert_eq!(strip_code_fences(text), "/prep7\nfinish");
}

#[test]
fn blocking_warning_requires_repair() {
    let err = "\
*** WARNING ***\n\
Specified range of 0 to 0 is not permitted. The VEXT command is ignored.\n\
\n";
    let report = classify_ansys_run_issue(err).expect("blocking warning should require repair");
    assert!(report.contains("blocking warnings"));
    assert!(report.contains("VEXT command is ignored"));
}

#[test]
fn shape_warning_alone_does_not_require_repair() {
    let err = "\
*** WARNING ***\n\
Shape testing revealed that 1 of the 28125 new or modified elements violate shape warning limits.\n\
\n";
    assert!(classify_ansys_run_issue(err).is_none());
}

#[test]
fn stage1_requires_mesh_commands() {
    let apdl = "/prep7\nmp,ex,1,3e6\nsave,model,db\nfinish\n";
    let report =
        validate_stage1_model_requirements(apdl).expect("incomplete stage 1 should be rejected");
    assert!(report.contains("missing ET definition"));
    assert!(report.contains("missing actual mesh generation command"));
}

#[test]
fn stage1_accepts_meshed_model_apdl() {
    let apdl = "\
/prep7\n\
et,1,solid185\n\
type,1\n\
mat,1\n\
esize,50\n\
vmesh,all\n\
finish\n";
    assert!(validate_stage1_model_requirements(apdl).is_none());
}

#[test]
fn stage1_report_names_what_is_missing() {
    let report = validate_stage1_model_requirements("et,1\nesize,1\n").expect("report");
    assert_eq!(
        report,
        "Stage 1 completeness validation failed even though the .err file is clean.\n\
This run cannot be accepted yet because the APDL did not reach a connected meshed model state.\n\n\
Missing requirements:\n- missing TYPE assignment\n\
- missing actual mesh generation command such as VMESH/AMESH/VSWEEP\n\n\
The repaired APDL must keep the geometry intent, but add the missing Stage 1 modeling steps."
    );
}

#[test]
fn strips_fences_only_around_the_text() {
    assert_eq!(strip_code_fences("  /prep7 \n"), "/prep7");
    assert_eq!(strip_code_fences("```\n\n a\n``````"), "a");
    assert_eq!(strip_code_fences("```apdl"), "");
    assert_eq!(strip_code_fences("a\n```"), "a\n```");
}

#[test]
fn candidates_have_to_look_like_apdl() {
    assert_eq!(
        validate_apdl_candidate("```\n/prep7\nblock,0,1\n```"),
        Ok("/prep7\nblock,0,1".to_string())
    );
    assert_eq!(validate_apdl_candidate(" ```\n``` "), Err(CandidateError::Empty));
    assert_eq!(validate_apdl_candidate("Tool: x\n/prep7"), Err(CandidateError::Transcript));
    assert_eq!(
        validate_apdl_candidate("/prep7 arguments: {}"),
        Err(CandidateError::Transcript)
    );
    assert_eq!(validate_apdl_candidate("hello world"), Err(CandidateError::NotApdl));
    assert_eq!(CandidateError::Empty.describe("m"), "m returned empty APDL");
    assert_eq!(
        CandidateError::Transcript.describe("m"),
        "m returned tool transcript / natural-language text instead of APDL"
    );
    assert_eq!(CandidateError::NotApdl.describe("m"), "m did not look like ANSYS APDL");
}

#[test]
fn explanations_are_no_candidates() {
    for text in [
        "Sure, the mesh looks fine.",
        "First I clean up, then, once meshed, you can finish and resume.",
        "Here is the plan:\nfinish the mesh, and resume the export\nResume it later",
        "The block, the mesh, and the /prep7 step look fine.",
        "Done.\n! et,1,185",
        "Sure,\nthe mesh looks fine.",
        "Sure, 50 elements were made.",
        "Fine, thanks",
        "Resume, then finish the mesh.",
        "*Sure, it is done.*",
        "The modulus $E, G$ is fine, too.",
        "1,000 nodes, no more",
    ] {
        assert_eq!(validate_apdl_candidate(text), Err(CandidateError::NotApdl), "{}", text);
    }
}

#[test]
fn one_command_at_the_beginning_of_a_line_is_enough() {
    for text in [
        "/PREP7",
        "! rebuilt\r\n  et,1,solid185\r\nvmesh,all",
        "vmesh,all\nFinish",
        "vmesh,all\nfinish $ save",
        "vmesh,all\nfinish ! done",
        "\tresume,model,db\nvmesh,all",
        "edwrite , lsdyna",
        "a\n*get,x,node,0,num,max",
        "ESIZE,50\nVMESH,ALL",
        "esize, 50\nvmesh, all",
        "A=1 $ ET,1,185",
        "A=1 ! size, then type\nsave$finish",
        "CDWRITE,DB,m,cdb",
        "ESEL,S,TYPE,,1\nVMESH,ALL",
        "/title, Plate, welded\nsave",
        "resume, model, db",
    ] {
        assert_eq!(validate_apdl_candidate(text), Ok(text.trim().to_string()), "{}", text);
    }
    assert_eq!(validate_apdl_candidate("finished\nresumed"), Err(CandidateError::NotApdl));
}

#[test]
fn placeholders_need_generation() {
    assert!(stage2_apdl_needs_generation(""));
    assert!(stage2_apdl_needs_generation("! a\n\n! b"));
    assert!(stage2_apdl_needs_generation("! Placeholder only for now\n/prep7"));
    assert!(stage2_apdl_needs_generation("Tool: x\n/prep7"));
    assert!(stage2_apdl_needs_generation("/prep7\n<shell_tool>"));
    assert!(stage2_apdl_needs_generation("/prep7 \"command\": 1"));
    assert!(!stage2_apdl_needs_generation("! a\n/prep7"));
}

#[test]
fn generated_apdl_may_not_be_blank() {
    assert_eq!(
        accept_generated_apdl("```\nx\n```", GenerationStage::Initial),
        Ok("x".to_string())
    );
    assert_eq!(
        accept_generated_apdl(" ", GenerationStage::Initial),
        Err("model returned empty APDL for initial generation".to_string())
    );
    assert_eq!(
        accept_generated_apdl("```", GenerationStage::Stage2),
        Err("model returned empty APDL for Stage 2 generation".to_string())
    );
}

#[test]
fn warnings_end_at_blank_lines() {
    let err = "x\n *** warning *** 1\nundefined key\n \n*** WARNING ***\nfine\n\n*** WARNING ***\nno areas exist";
    assert_eq!(
        extract_blocking_warning_blocks(err),
        vec![
            " *** warning *** 1\nundefined key".to_string(),
            "*** WARNING ***\nno areas exist".to_string(),
        ]
    );
    assert!(is_blocking_warning_block("Unable to mesh"));
    assert!(!is_blocking_warning_block("fine"));
    assert!(extract_blocking_warning_blocks("").is_empty());
}

#[test]
fn reports_errors_and_warnings() {
    assert!(contains_ansys_error("a\n *** Error ***  b"));
    assert!(!contains_ansys_error("ERROR"));
    let err = "*** ERROR ***\nbad\n\n*** WARNING ***\nDEGENERATE\n";
    assert_eq!(
        classify_ansys_run_issue(err).expect("issue"),
        format!(
            "Detected ANSYS .err errors.\n\nDetected blocking warnings that likely invalidate the model even without *** ERROR *** blocks.\nThese warnings must be repaired before the run is accepted.\n\nBlocking warning 1:\n*** WARNING ***\nDEGENERATE\n\nFull .err content:\n{}",
            err
        )
    );
    assert_eq!(
        classify_ansys_run_issue("*** ERROR ***").expect("issue"),
        "Detected ANSYS .err errors.\n\nFull .err content:\n*** ERROR ***"
    );
}

#[test]
fn decks_are_not_written_by_hand() {
    assert!(validate_stage2_apdl_strategy("*cfopen,a\n*vwrite\n*keyword").is_some());
    assert!(validate_stage2_apdl_strategy("*cfopen,a").is_none());
    assert!(validate_stage2_apdl_strategy("! *node list").is_none());
}

#[test]
fn completion_is_awaited() {
    assert!(ansys_out_indicates_completion(Some("x ANSYS RUN COMPLETED y")));
    assert!(ansys_out_indicates_completion(Some("E N D   A N S Y S   S T A T I S T I C S")));
    assert!(!ansys_out_indicates_completion(Some("ansys run completed")));
    assert!(!ansys_out_indicates_completion(None));
    assert!(matches!(
        wait_for_ansys_completion(89, Some("END OF INPUT ENCOUNTERED"), "o"),
        WaitStep::Completed
    ));
    assert!(matches!(wait_for_ansys_completion(0, None, "o"), WaitStep::Sleep));
    match wait_for_ansys_completion(90, Some("END OF INPUT ENCOUNTERED"), "o") {
        WaitStep::GiveUp(message) => assert_eq!(
            message,
            "ANSYS execution did not reach the standard completion marker within 90 seconds.\nTreat this run as incomplete even if a partial .K file already exists.\nansys.out: o"
        ),
        other => panic!("unexpected step {:?}", other),
    }
}

fn whole_deck() -> String {
    "*keyword\n*node\n*element_solid\n*part\n*section\n*mat_1\n*end\n".to_string()
}

#[test]
fn decks_are_checked() {
    let sound = KFileText::Whole(whole_deck());
    assert_eq!(validate_k_file("k", &Ok(9), &sound), None);
    assert_eq!(
        validate_k_file("k", &Err("gone".to_string()), &sound),
        Some("A .K file path was detected but metadata could not be read: k (gone)".to_string())
    );
    assert_eq!(
        validate_k_file("k", &Ok(0), &sound),
        Some("The .K file is empty: k".to_string())
    );
    assert_eq!(k_file_size_issue("k", 262_144_000), None);
    assert_eq!(
        validate_k_file("k", &Ok(262_144_001), &sound),
        Some("The .K file is unreasonably large for this bridge export and is likely a runaway partial write.\nFile: k\nSize: 262144001 bytes\nStage 2 must not be accepted until the export ends cleanly with a compact, complete deck.".to_string())
    );
    let ends = KFileText::Ends {
        head: "*keyword *node *element".to_string(),
        tail: "*part *section *mat *end".to_string(),
    };
    assert_eq!(validate_k_file("k", &Ok(9), &ends), None);
    let part = KFileText::Whole("*KEYWORD *NODE *ELEMENT *SECTION *MAT".to_string());
    assert_eq!(
        validate_k_file("k", &Ok(9), &part),
        Some("The .K file exists but does not look structurally complete yet.\nFile: k\nMissing required markers in the checked .K text: *PART, *END\nThis usually means the export is partial or wrote the wrong deck format.".to_string())
    );
    assert_eq!(
        validate_k_file("k", &Ok(9), &KFileText::NoHead("e".to_string())),
        Some("Failed to read the beginning of the .K file for validation: k (e)".to_string())
    );
    assert_eq!(
        validate_k_file("k", &Ok(9), &KFileText::NoTail("e".to_string())),
        Some("Failed to read the end of the .K file for validation: k (e)".to_string())
    );
    assert_eq!(tail_start(100_000, 65_536), 34_464);
    assert_eq!(tail_start(10, 65_536), 0);
}

#[test]
fn only_checked_decks_are_sound() {
    let whole = KFileText::Whole(whole_deck());
    assert!(matches!(check_deck("k", &Ok(9), &whole), KFileState::Sound));
    match check_deck("k", &Ok(0), &whole) {
        KFileState::Flawed(issue) => assert_eq!(issue, "The .K file is empty: k"),
        other => panic!("unexpected state {:?}", other),
    }
    let empty = KFileText::Whole(String::new());
    assert!(matches!(check_deck("k", &Ok(9), &empty), KFileState::Flawed(_)));
}

#[test]
fn exports_are_checked() {
    assert_eq!(
        validate_stage2_export_requirements(true, &KFileState::Sound, "o", "kd"),
        None
    );
    assert_eq!(
        validate_stage2_export_requirements(
            true,
            &KFileState::Flawed("flaw".to_string()),
            "o",
            "kd"
        ),
        Some("Stage 2 export validation failed even though the .err file did not report blocking issues.\n\nflaw".to_string())
    );
    let both =
        validate_stage2_export_requirements(false, &KFileState::Absent, "o", "kd").expect("issue");
    assert!(both.contains("ansys.out: o\n\nNo .K file was produced"));
    assert!(both.contains("Target k directory: kd\n"));
}

fn text_asset(relative_path: &str, text: &str) -> InputAsset {
    InputAsset {
        path: format!("/in/{}", relative_path),
        relative_path: relative_path.to_string(),
        kind: "text".to_string(),
        text: Some(text.to_string()),
    }
}

fn image_asset(relative_path: &str) -> InputAsset {
    InputAsset {
        path: format!("/in/{}", relative_path),
        relative_path: relative_path.to_string(),
        kind: "image".to_string(),
        text: None,
    }
}

#[test]
fn summary_shows_texts_and_images() {
    let summary = build_input_summary(&vec![
        text_asset("a.txt", " bridge notes\n"),
        image_asset("d.png"),
    ]);
    assert_eq!(
        summary,
        "OpenAnsys input summary\n\nTotal assets: 2\n\n- [text] a.txt\n\nbridge notes\n\n- [image] d.png"
    );
}

#[test]
fn summary_keeps_its_budget() {
    let long = "q".repeat(5_000);
    let assets = vec![
        text_asset("a.txt", &long),
        text_asset("b.txt", &long),
        text_asset("c.txt", &long),
        text_asset("d.txt", &long),
    ];
    let summary = build_input_summary(&assets);
    assert_eq!(summary.matches('q').count(), 11_994);
    assert!(summary.ends_with("- [text] d.txt\n\n[text omitted: summary budget exhausted]"));
    assert_eq!(summary.matches("...\n\n[truncated]").count(), 3);
}

#[test]
fn structured_texts_go_first() {
    let long = "q".repeat(5_000);
    let assets = vec![text_asset("a.txt", &long), text_asset("Structured.md", &long)];
    let summary = build_input_summary(&assets);
    assert_eq!(summary.matches('q').count(), 4_800);
    let short = "z".repeat(802);
    let assets = vec![text_asset("a.txt", &short), text_asset("structured.txt", "s")];
    let summary = build_input_summary(&assets);
    assert!(summary.contains(&format!("{}...\n\n- [text] structured.txt", "z".repeat(800))));
    assert!(!summary.contains("[truncated]"));
}

#[test]
fn only_supported_extensions_count() {
    assert_eq!(classify_asset(Some("TXT")), Some("text"));
    assert_eq!(classify_asset(Some("md")), Some("text"));
    assert_eq!(classify_asset(Some("png")), Some("image"));
    assert_eq!(classify_asset(Some("JPeg")), Some("image"));
    assert_eq!(classify_asset(Some("jpg")), Some("image"));
    assert_eq!(classify_asset(Some("bmp")), Some("image"));
    assert_eq!(classify_asset(Some("doc")), None);
    assert_eq!(classify_asset(None), None);
}

#[test]
fn bundles_are_sorted_and_not_empty() {
    let (assets, summary) =
        prepare_input_bundle(vec![image_asset("b.png"), text_asset("a.txt", "t")], "in")
            .expect("bundle");
    assert_eq!(assets[0].relative_path, "a.txt");
    assert_eq!(summary, build_input_summary(&assets));
    assert_eq!(
        prepare_input_bundle(Vec::new(), "in").err(),
        Some("no supported input assets found under in".to_string())
    );
}

#[test]
fn environment_overrides_defaults() {
    let plan = load_config(&Environment {
        executable_set: false,
        fallback_executable_set: false,
        input_dir_set: false,
        output_dir_set: false,
        stage2_product: None,
        max_repair_attempts: None,
    });
    assert_eq!(plan.executable, ExecutableSource::Default);
    assert_eq!(plan.input_dir, DirSource::Workspace);
    assert_eq!(plan.output_dir, DirSource::Workspace);
    assert_eq!(plan.stage2_product, "dyna");
    assert_eq!(plan.max_repair_attempts, 6);
    let plan = load_config(&Environment {
        executable_set: true,
        fallback_executable_set: true,
        input_dir_set: true,
        output_dir_set: true,
        stage2_product: Some(" p ".to_string()),
        max_repair_attempts: Some("9".to_string()),
    });
    assert_eq!(plan.executable, ExecutableSource::Primary);
    assert_eq!(plan.input_dir, DirSource::Environment);
    assert_eq!(plan.output_dir, DirSource::Environment);
    assert_eq!(plan.stage2_product, " p ");
    assert_eq!(plan.max_repair_attempts, 9);
    let plan = load_config(&Environment {
        executable_set: false,
        fallback_executable_set: true,
        input_dir_set: false,
        output_dir_set: false,
        stage2_product: Some("  ".to_string()),
        max_repair_attempts: Some("0".to_string()),
    });
    assert_eq!(plan.executable, ExecutableSource::Fallback);
    assert_eq!(plan.stage2_product, "dyna");
    assert_eq!(plan.max_repair_attempts, 6);
    assert_eq!(
        DEFAULT_ANSYS_EXE,
        r"F:\ansys\19.0zhuchengxu\ANSYS Inc\v190\ansys\bin\winx64\ANSYS190.exe"
    );
}
