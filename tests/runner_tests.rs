use helioscope::runner::{
    cache_total, detection_json_line, inference_output, py, tile_path_from_output,
    tile_script_args,
};

#[test]
fn interpreter_path() {
    assert_eq!(py(), "/usr/local/bin/python3");
}

#[test]
fn tile_arguments() {
    let args = tile_script_args("/p/imagenRunner.py", "12.5", "-3.25", 20, 1, "google");
    assert_eq!(
        args,
        vec!["/p/imagenRunner.py", "12.5", "-3.25", "20", "1", "google", "--crop"]
    );
}

#[test]
fn tile_path_on_failure() {
    assert_eq!(tile_path_from_output(false, "boom"), Err("Python error: boom".to_string()));
}

#[test]
fn tile_path_missing() {
    assert_eq!(
        tile_path_from_output(true, "x\n  \n"),
        Err("Python returned no path".to_string())
    );
    assert_eq!(tile_path_from_output(true, ""), Err("Python returned no path".to_string()));
}

#[test]
fn tile_path_from_last_line() {
    assert_eq!(
        tile_path_from_output(true, "fetching\ntile_cache/a.png \n"),
        Ok("tile_cache/a.png".to_string())
    );
}

#[test]
fn inference_outcomes() {
    assert_eq!(inference_output(true, "out", "err"), Ok("out".to_string()));
    assert_eq!(inference_output(false, "out", "err"), Err("AI script error: err".to_string()));
}

#[test]
fn detection_line() {
    assert_eq!(
        detection_json_line("model loaded\n{\"has_solar\": true}\n"),
        Ok("{\"has_solar\": true}".to_string())
    );
    assert_eq!(detection_json_line("nothing"), Err("AI output missing JSON".to_string()));
}

#[test]
fn detection_line_is_the_last() {
    assert_eq!(
        detection_json_line("{\"debug\": 1}\n  {\"has_solar\": false} \r\n"),
        Ok("{\"has_solar\": false}".to_string())
    );
    assert_eq!(
        detection_json_line("{\"has_solar\": true}\ndone\n"),
        Err("AI output missing JSON".to_string())
    );
    assert_eq!(detection_json_line(""), Err("AI output missing JSON".to_string()));
}

#[test]
fn cache_sizes() {
    assert_eq!(cache_total(&vec![]), Some(0));
    assert_eq!(cache_total(&vec![1, 2, 3]), Some(6));
    assert_eq!(cache_total(&vec![u64::MAX, 0]), Some(u64::MAX));
    assert_eq!(cache_total(&vec![u64::MAX, 1]), None);
}
