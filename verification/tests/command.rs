use hypetrigger::command::{ffmpeg_arguments, ffmpeg_command, filter_complex, CropFractions};
use hypetrigger::text::to_decimal;

fn crop(width: &str, height: &str, x: &str, y: &str) -> CropFractions {
    CropFractions {
        width: width.to_string(),
        height: height.to_string(),
        x: x.to_string(),
        y: y.to_string(),
    }
}

#[test]
fn decimal_rendering() {
    assert_eq!(to_decimal(0), "0");
    assert_eq!(to_decimal(7), "7");
    assert_eq!(to_decimal(10), "10");
    assert_eq!(to_decimal(1234567890), "1234567890");
    assert_eq!(to_decimal(u64::MAX), "18446744073709551615");
}

#[test]
fn filter_graph_for_one_full_frame_trigger() {
    let crops = vec![crop("1", "1", "0", "0")];
    assert_eq!(
        filter_complex(2, &crops),
        "[0:v]fps=2,split=1[in0];[in0]crop=round(in_w*1):round(in_h*1):round(in_w*0):round(in_h*0)[out0]"
    );
}

#[test]
fn filter_graph_for_two_triggers() {
    let crops = vec![
        crop("0.6059988", "0.6059988", "0.9307", "0.8856"),
        crop("0.02", "0.02", "0", "0"),
    ];
    assert_eq!(
        filter_complex(4, &crops),
        "[0:v]fps=4,split=2[in0][in1];\
         [in0]crop=round(in_w*0.6059988):round(in_h*0.6059988):round(in_w*0.9307):round(in_h*0.8856)[out0];\
         [in1]crop=round(in_w*0.02):round(in_h*0.02):round(in_w*0):round(in_h*0)[out1]"
    );
}

#[test]
fn filter_graph_without_triggers() {
    assert_eq!(filter_complex(30, &vec![]), "[0:v]fps=30,split=0;");
}

#[test]
fn filter_graph_with_many_triggers_separates_branches() {
    let crops: Vec<CropFractions> = (0..12).map(|_| crop("1", "1", "0", "0")).collect();
    let graph = filter_complex(1, &crops);
    assert!(graph.starts_with("[0:v]fps=1,split=12[in0][in1][in2]"));
    assert!(graph.contains("[in10][in11];[in0]crop="));
    assert_eq!(graph.matches(";").count(), 12);
    assert!(graph.ends_with("[in11]crop=round(in_w*1):round(in_h*1):round(in_w*0):round(in_h*0)[out11]"));
}

#[test]
fn argument_list_maps_each_trigger() {
    let crops = vec![crop("0.5", "0.5", "0.25", "0.25"), crop("1", "1", "0", "0")];
    let args = ffmpeg_arguments("F:/videos/clip 1.mp4", 2, &crops);
    let expected: Vec<String> = vec![
        "-hwaccel".to_string(),
        "auto".to_string(),
        "-i".to_string(),
        "F:/videos/clip 1.mp4".to_string(),
        "-filter_complex".to_string(),
        filter_complex(2, &crops),
        "-map".to_string(),
        "[out0]".to_string(),
        "-map".to_string(),
        "[out1]".to_string(),
        "-vsync".to_string(),
        "drop".to_string(),
        "-f".to_string(),
        "rawvideo".to_string(),
        "-pix_fmt".to_string(),
        "rgb24".to_string(),
        "-an".to_string(),
        "-y".to_string(),
        "pipe:1".to_string(),
    ];
    assert_eq!(args, expected);
}

#[test]
fn argument_list_without_triggers_has_no_maps() {
    let args = ffmpeg_arguments("in.mp4", 2, &vec![]);
    assert_eq!(args.len(), 15);
    assert!(!args.iter().any(|a| a == "-map"));
    assert_eq!(args[5], "[0:v]fps=2,split=0;");
}

#[test]
fn command_runs_the_given_binary() {
    let crops = vec![crop("1", "1", "0", "0")];
    let cmd = ffmpeg_command("/usr/bin/ffmpeg", "test.mp4", 2, &crops);
    assert_eq!(cmd.program, "/usr/bin/ffmpeg");
    assert_eq!(cmd.args, ffmpeg_arguments("test.mp4", 2, &crops));
    assert_eq!(cmd.args[3], "test.mp4");
}
