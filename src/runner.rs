use crate::text::{
    chars_of, decimal, decimal_text, last_line, last_line_trimmed, opens_object, push_all,
    string_of, trim,
};
use vstd::prelude::*;

verus! {

/// The interpreter that runs the helper scripts.
pub open spec fn interpreter_path() -> Seq<char> {
    "/usr/local/bin/python3"@
}

/// The path of the interpreter that runs the helper scripts.
pub fn py() -> (r: String)
    ensures
        r@ == interpreter_path(),
{
    String::from_str("/usr/local/bin/python3")
}

/// The arguments of one run of the tile script, after the interpreter: the
/// script, the coordinates as text, the zoom level and radius in decimal, the
/// imagery provider, and the flag that asks for a cropped tile.
pub open spec fn tile_args(
    script: Seq<char>,
    lat: Seq<char>,
    lon: Seq<char>,
    zoom: u32,
    radius: u32,
    provider: Seq<char>,
) -> Seq<Seq<char>> {
    seq![script, lat, lon, decimal(zoom as nat), decimal(radius as nat), provider, "--crop"@]
}

/// The arguments of one run of the tile script.
pub fn tile_script_args(
    script: &str,
    lat: &str,
    lon: &str,
    zoom: u32,
    radius: u32,
    provider: &str,
) -> (r: Vec<String>)
    ensures
        r@.map_values(|a: String| a@) == tile_args(script@, lat@, lon@, zoom, radius, provider@),
{
    let mut r: Vec<String> = Vec::new();
    r.push(String::from_str(script));
    r.push(String::from_str(lat));
    r.push(String::from_str(lon));
    r.push(decimal_text(zoom as u64));
    r.push(decimal_text(radius as u64));
    r.push(String::from_str(provider));
    r.push(String::from_str("--crop"));
    assert(r@.map_values(|a: String| a@) =~= tile_args(
        script@,
        lat@,
        lon@,
        zoom,
        radius,
        provider@,
    ));
    r
}

/// `head` followed by `tail`.
fn joined(head: &str, tail: &str) -> (r: String)
    ensures
        r@ == head@ + tail@,
{
    let mut v = chars_of(head);
    push_all(&mut v, &chars_of(tail));
    string_of(&v)
}

/// What a run of the tile script comes to, given whether it exited with
/// success and what it wrote to standard output: the relative path of the
/// image on its last line, trimmed, or an error.
pub open spec fn tile_outcome(success: bool, stdout: Seq<char>) -> Result<Seq<char>, Seq<char>> {
    if !success {
        Err("Python error: "@ + stdout)
    } else if trim(last_line(stdout)).len() == 0 {
        Err("Python returned no path"@)
    } else {
        Ok(trim(last_line(stdout)))
    }
}

/// The relative path of the image that a run of the tile script reports.
pub fn tile_path_from_output(success: bool, stdout: &str) -> (r: Result<String, String>)
    ensures
        r matches Ok(p) ==> tile_outcome(success, stdout@) == Ok::<Seq<char>, Seq<char>>(p@),
        r matches Err(e) ==> tile_outcome(success, stdout@) == Err::<Seq<char>, Seq<char>>(e@),
{
    if !success {
        return Err(joined("Python error: ", stdout));
    }
    let rel = last_line_trimmed(stdout);
    if rel.as_str().unicode_len() == 0 {
        return Err(String::from_str("Python returned no path"));
    }
    Ok(rel)
}

/// What a run of the inference script comes to: its standard output, or an
/// error that carries its standard error.
pub open spec fn inference_outcome(
    success: bool,
    stdout: Seq<char>,
    stderr: Seq<char>,
) -> Result<Seq<char>, Seq<char>> {
    if success {
        Ok(stdout)
    } else {
        Err("AI script error: "@ + stderr)
    }
}

/// The output of a run of the inference script, or the error that it reported.
pub fn inference_output(success: bool, stdout: &str, stderr: &str) -> (r: Result<String, String>)
    ensures
        r matches Ok(o) ==> inference_outcome(success, stdout@, stderr@) == Ok::<
            Seq<char>,
            Seq<char>,
        >(o@),
        r matches Err(e) ==> inference_outcome(success, stdout@, stderr@) == Err::<
            Seq<char>,
            Seq<char>,
        >(e@),
{
    if success {
        Ok(String::from_str(stdout))
    } else {
        Err(joined("AI script error: ", stderr))
    }
}

/// The detection record that a run of the inference script reports: its
/// last line, trimmed, which must open a JSON object.
pub fn detection_json_line(output: &str) -> (r: Result<String, String>)
    ensures
        r matches Ok(l) ==> opens_object(last_line(output@)) && l@ == trim(last_line(output@)),
        r matches Err(e) ==> !opens_object(last_line(output@)) && e@
            == "AI output missing JSON"@,
{
    let line = last_line_trimmed(output);
    if line.as_str().unicode_len() > 0 && line.as_str().get_char(0) == '{' {
        Ok(line)
    } else {
        Err(String::from_str("AI output missing JSON"))
    }
}

/// The sum of `sizes`.
pub open spec fn total(sizes: Seq<u64>) -> int
    decreases sizes.len(),
{
    if sizes.len() == 0 {
        0
    } else {
        total(sizes.drop_last()) + sizes.last()
    }
}

proof fn lemma_total_prefix(sizes: Seq<u64>, i: int)
    requires
        0 <= i <= sizes.len(),
    ensures
        total(sizes.subrange(0, i)) <= total(sizes),
    decreases sizes.len() - i,
{
    if i < sizes.len() {
        lemma_total_prefix(sizes, i + 1);
        assert(sizes.subrange(0, i + 1).drop_last() =~= sizes.subrange(0, i));
    } else {
        assert(sizes.subrange(0, i) =~= sizes);
    }
}

/// The total size of the files in the tile cache, from the size of each file;
/// nothing where the total does not fit in a `u64`.
pub fn cache_total(sizes: &Vec<u64>) -> (r: Option<u64>)
    ensures
        r matches Some(t) ==> t == total(sizes@),
        r is None <==> total(sizes@) > u64::MAX,
{
    let mut acc: u64 = 0;
    let mut i: usize = 0;
    while i < sizes.len()
        invariant
            i <= sizes@.len(),
            acc == total(sizes@.subrange(0, i as int)),
        decreases sizes@.len() - i,
    {
        assert(sizes@.subrange(0, i + 1).drop_last() =~= sizes@.subrange(0, i as int));
        match acc.checked_add(sizes[i]) {
            Some(a) => {
                acc = a;
            },
            None => {
                proof {
                    lemma_total_prefix(sizes@, i + 1);
                }
                return None;
            },
        }
        i = i + 1;
    }
    assert(sizes@.subrange(0, i as int) =~= sizes@);
    Some(acc)
}

} // verus!
