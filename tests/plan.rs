use otterpack::{
    is_input_file_name, plan_conversion, select_inputs, AudioFormat, CommandArg, ProgressInfo, AUP_FOLDER_NAME,
    AUP_HEADER, MANIFEST_FILE_NAME,
};

fn names(v: &[&str]) -> Vec<String> {
    v.iter().map(|s| s.to_string()).collect()
}

fn t(s: &str) -> CommandArg {
    CommandArg::Text(s.to_string())
}

fn import(name: &str) -> String {
    format!(
        "\t<import filename=\"{}\" offset=\"0.00000000\" mute=\"0\" solo=\"0\" height=\"150\" minimized=\"0\" gain=\"1.0\" pan=\"0.0\"/>\n",
        name
    )
}

#[test]
fn input_names_need_flac_extension() {
    assert!(is_input_file_name("1-alice.flac"));
    assert!(is_input_file_name("..flac"));
    assert!(!is_input_file_name(".flac"));
    assert!(!is_input_file_name("ffmpeg.exe"));
    assert!(!is_input_file_name("song.FLAC"));
    assert!(!is_input_file_name("flac"));
    assert!(!is_input_file_name("a.flac.txt"));
}

#[test]
fn inputs_keep_listing_order() {
    let entries = names(&["b.flac", "ffmpeg.exe", "a.flac", "notes.txt"]);
    assert_eq!(select_inputs(&entries), vec![0, 2]);
}

#[test]
fn three_tracks_report_progress_in_order() {
    let entries = names(&["a.flac", "ffmpeg.exe", "b.flac", "c.flac"]);
    let plan = plan_conversion(&entries, AudioFormat::WAV, false, false);
    assert_eq!(plan.jobs.len(), 3);
    let progress: Vec<ProgressInfo> = plan.jobs.iter().map(|j| j.progress.clone()).collect();
    assert_eq!(
        progress,
        vec![
            ProgressInfo { filename: "a.flac".to_string(), current: 0, total: 3 },
            ProgressInfo { filename: "b.flac".to_string(), current: 1, total: 3 },
            ProgressInfo { filename: "c.flac".to_string(), current: 2, total: 3 },
        ]
    );
    assert_eq!(plan.output_subfolder, None);
    assert_eq!(plan.manifest, None);
}

#[test]
fn single_file_arguments() {
    let entries = names(&["ffmpeg.exe", "1-bob.flac"]);
    let plan = plan_conversion(&entries, AudioFormat::AAC, true, false);
    assert_eq!(plan.jobs.len(), 1);
    assert_eq!(
        plan.jobs[0].args,
        vec![
            t("-y"),
            t("-i"),
            CommandArg::Input(1),
            t("-af"),
            t("dynaudnorm"),
            t("-c:a"),
            t("aac"),
            t("-f"),
            t("ipod"),
            CommandArg::Output("1-bob.m4a".to_string()),
        ]
    );
    assert_eq!(plan.jobs[0].output_name, "1-bob.m4a");
}

#[test]
fn single_file_without_normalization() {
    let entries = names(&["x.flac"]);
    let plan = plan_conversion(&entries, AudioFormat::FLAC, false, false);
    assert_eq!(
        plan.jobs[0].args,
        vec![
            t("-y"),
            t("-i"),
            CommandArg::Input(0),
            t("-c:a"),
            t("flac"),
            t("-f"),
            t("flac"),
            CommandArg::Output("x.flac".to_string()),
        ]
    );
}

#[test]
fn mixing_builds_one_invocation() {
    let entries = names(&["a.flac", "ffmpeg.exe", "b.flac"]);
    let plan = plan_conversion(&entries, AudioFormat::WAV, false, true);
    assert_eq!(plan.jobs.len(), 1);
    let job = &plan.jobs[0];
    assert_eq!(job.progress, ProgressInfo { filename: "Mixed output".to_string(), current: 0, total: 1 });
    assert_eq!(
        job.args,
        vec![
            t("-y"),
            t("-i"),
            CommandArg::Input(0),
            t("-i"),
            CommandArg::Input(2),
            t("-filter_complex"),
            t("[0:a]anull[aud0];[1:a]anull[aud1];[aud0][aud1]amix=2[aud]"),
            t("-map"),
            t("[aud]"),
            t("-c:a"),
            t("pcm_s16le"),
            t("-f"),
            t("wav"),
            CommandArg::Output("craig.wav".to_string()),
        ]
    );
    assert_eq!(job.output_name, "craig.wav");
}

#[test]
fn mixing_nothing_plans_nothing() {
    let entries = names(&["ffmpeg.exe"]);
    let plan = plan_conversion(&entries, AudioFormat::FLAC, true, true);
    assert!(plan.jobs.is_empty());
}

#[test]
fn project_format_writes_manifest_for_each_output() {
    let entries = names(&["1-a.flac", "ffmpeg.exe", "2-b.flac"]);
    let plan = plan_conversion(&entries, AudioFormat::Audacity, false, false);
    assert_eq!(plan.output_subfolder, Some(AUP_FOLDER_NAME.to_string()));
    assert_eq!(AUP_FOLDER_NAME, "craig_data");
    assert_eq!(MANIFEST_FILE_NAME, "craig.aup");
    let expected = format!("{}{}{}</project>", AUP_HEADER, import("1-a.flac"), import("2-b.flac"));
    assert_eq!(plan.manifest, Some(expected));
    assert!(AUP_HEADER.starts_with("<?xml version=\"1.0\" standalone=\"no\" ?>\n"));
}

#[test]
fn project_format_with_mix_imports_the_mix() {
    let entries = names(&["1-a.flac", "2-b.flac"]);
    let plan = plan_conversion(&entries, AudioFormat::Audacity, true, true);
    let expected = format!("{}{}</project>", AUP_HEADER, import("craig.flac"));
    assert_eq!(plan.manifest, Some(expected));
}

#[test]
fn project_format_without_tracks_has_empty_manifest() {
    let plan = plan_conversion(&names(&[]), AudioFormat::Audacity, false, false);
    assert_eq!(plan.manifest, Some(format!("{}</project>", AUP_HEADER)));
}

#[test]
fn data_subfolder_only_for_projects() {
    assert_eq!(otterpack::data_subfolder(AudioFormat::Audacity), Some("craig_data"));
    assert_eq!(otterpack::data_subfolder(AudioFormat::FLAC), None);
    assert_eq!(otterpack::data_subfolder(AudioFormat::ALAC), None);
}
