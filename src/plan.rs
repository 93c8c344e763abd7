//! Turning a resource folder listing and the user's choices into encoder invocations.

use vstd::prelude::*;
use crate::format::{AudioFormat, encoder_args_of, extension_of, is_project};
use crate::graph::{filter_graph, mix_filter_graph};
use crate::text::{owned, positions_where, views};

verus! {

/// File name of the encoder expected directly under the resource folder.
pub const REQUIRED_BINARY: &'static str = "ffmpeg.exe";

/// Folder, under the output root, that receives the audio of a project.
pub const AUP_FOLDER_NAME: &'static str = "craig_data";

/// File name, under the output root, of the project manifest.
pub const MANIFEST_FILE_NAME: &'static str = "craig.aup";

/// Opening of every project manifest.
pub const AUP_HEADER: &'static str = "<?xml version=\"1.0\" standalone=\"no\" ?>\n<!DOCTYPE project PUBLIC \"-//audacityproject-1.3.0//DTD//EN\" \"http://audacity.sourceforge.net/xml/audacityproject-1.3.0.dtd\" >\n<project xmlns=\"http://audacity.sourceforge.net/xml/\" projname=\"Craig\" version=\"1.3.0\" audacityversion=\"2.2.2\" rate=\"48000.0\">\n";

/// Model of a [`CommandArg`].
pub enum ArgView {
    Text(Seq<char>),
    Input(nat),
    Output(Seq<char>),
}

/// One argument of an encoder invocation.
#[derive(Debug, Clone, PartialEq, Eq)]
pub enum CommandArg {
    /// A literal argument.
    Text(String),
    /// The path of the listed resource entry with this position.
    Input(usize),
    /// The path of this file name inside the output folder.
    Output(String),
}

impl View for CommandArg {
    type V = ArgView;

    open spec fn view(&self) -> ArgView {
        match self {
            CommandArg::Text(s) => ArgView::Text(s@),
            CommandArg::Input(i) => ArgView::Input(*i as nat),
            CommandArg::Output(s) => ArgView::Output(s@),
        }
    }
}

/// Which file is being converted, out of how many.
#[derive(Debug, Clone, PartialEq, Eq)]
pub struct ProgressInfo {
    pub filename: String,
    pub current: usize,
    pub total: usize,
}

impl View for ProgressInfo {
    type V = (Seq<char>, nat, nat);

    open spec fn view(&self) -> (Seq<char>, nat, nat) {
        (self.filename@, self.current as nat, self.total as nat)
    }
}

/// One encoder invocation, with the progress reported before it and the file it writes.
#[derive(Debug)]
pub struct Job {
    pub progress: ProgressInfo,
    pub args: Vec<CommandArg>,
    pub output_name: String,
}

impl View for Job {
    type V = ((Seq<char>, nat, nat), Seq<ArgView>, Seq<char>);

    open spec fn view(&self) -> ((Seq<char>, nat, nat), Seq<ArgView>, Seq<char>) {
        (self.progress@, self.args@.map_values(|a: CommandArg| a@), self.output_name@)
    }
}

/// Everything a conversion run does, in order.
#[derive(Debug)]
pub struct ConversionPlan {
    /// Folder under the output root that receives the converted files, if any.
    pub output_subfolder: Option<String>,
    /// The invocations, run one after another.
    pub jobs: Vec<Job>,
    /// The project manifest to write under the output root once every job succeeded.
    pub manifest: Option<String>,
}

/// Whether a resource entry is a track to convert: a non-empty stem followed by `.flac`.
pub open spec fn is_input_name(s: Seq<char>) -> bool {
    s.len() > 5 && s.subrange(s.len() - 5, s.len() as int) == ".flac"@
}

/// Positions of the tracks among the listed resource entries.
pub open spec fn input_positions(names: Seq<Seq<char>>) -> Seq<int> {
    positions_where(names, |s: Seq<char>| is_input_name(s))
}

/// The file written for track `input`: its stem with the format's extension.
pub open spec fn converted_name(input: Seq<char>, f: AudioFormat) -> Seq<char> {
    input.subrange(0, input.len() - 5) + "."@ + extension_of(f)
}

/// The file written when every track is mixed into one.
pub open spec fn mixed_name(f: AudioFormat) -> Seq<char> {
    "craig."@ + extension_of(f)
}

pub open spec fn encoder_arg_views(f: AudioFormat) -> Seq<ArgView> {
    encoder_args_of(f).map_values(|a: Seq<char>| ArgView::Text(a))
}

pub open spec fn normalize_args(normalize: bool) -> Seq<ArgView> {
    if normalize {
        seq![ArgView::Text("-af"@), ArgView::Text("dynaudnorm"@)]
    } else {
        Seq::empty()
    }
}

/// Arguments converting the entry at position `pos` into the file `out`.
pub open spec fn single_args(pos: int, out: Seq<char>, f: AudioFormat, normalize: bool) -> Seq<ArgView> {
    seq![ArgView::Text("-y"@), ArgView::Text("-i"@), ArgView::Input(pos as nat)] + normalize_args(normalize)
        + encoder_arg_views(f) + seq![ArgView::Output(out)]
}

/// `-i <entry>` for each position in `ps`.
pub open spec fn input_args(ps: Seq<int>) -> Seq<ArgView>
    decreases ps.len(),
{
    if ps.len() == 0 {
        Seq::empty()
    } else {
        input_args(ps.drop_last()) + seq![ArgView::Text("-i"@), ArgView::Input(ps.last() as nat)]
    }
}

/// Arguments mixing the entries at positions `ps` into one file.
pub open spec fn mix_args(ps: Seq<int>, f: AudioFormat, normalize: bool) -> Seq<ArgView> {
    seq![ArgView::Text("-y"@)] + input_args(ps) + seq![
        ArgView::Text("-filter_complex"@),
        ArgView::Text(filter_graph(ps.len(), normalize)),
        ArgView::Text("-map"@),
        ArgView::Text("[aud]"@),
    ] + encoder_arg_views(f) + seq![ArgView::Output(mixed_name(f))]
}

/// The job converting the `k`-th track on its own.
pub open spec fn single_job(names: Seq<Seq<char>>, k: int, f: AudioFormat, normalize: bool) -> (
    (Seq<char>, nat, nat),
    Seq<ArgView>,
    Seq<char>,
) {
    let ps = input_positions(names);
    let name = names[ps[k]];
    ((name, k as nat, ps.len()), single_args(ps[k], converted_name(name, f), f, normalize), converted_name(name, f))
}

/// The jobs of a run over the listed resource entries `names`.
pub open spec fn planned_jobs(names: Seq<Seq<char>>, f: AudioFormat, normalize: bool, mix: bool) -> Seq<
    ((Seq<char>, nat, nat), Seq<ArgView>, Seq<char>),
> {
    let ps = input_positions(names);
    if mix && ps.len() > 0 {
        seq![(("Mixed output"@, 0nat, 1nat), mix_args(ps, f, normalize), mixed_name(f))]
    } else {
        Seq::new(ps.len(), |k: int| single_job(names, k, f, normalize))
    }
}

/// The manifest entry importing `name`.
pub open spec fn import_line(name: Seq<char>) -> Seq<char> {
    "\t<import filename=\""@ + name
        + "\" offset=\"0.00000000\" mute=\"0\" solo=\"0\" height=\"150\" minimized=\"0\" gain=\"1.0\" pan=\"0.0\"/>\n"@
}

pub open spec fn import_lines(names: Seq<Seq<char>>) -> Seq<char>
    decreases names.len(),
{
    if names.len() == 0 {
        Seq::empty()
    } else {
        import_lines(names.drop_last()) + import_line(names.last())
    }
}

/// The project manifest importing `outputs`, in order.
pub open spec fn project_manifest(outputs: Seq<Seq<char>>) -> Seq<char> {
    AUP_HEADER@ + import_lines(outputs) + "</project>"@
}

/// The files written by `jobs`, in order.
pub open spec fn output_names(jobs: Seq<((Seq<char>, nat, nat), Seq<ArgView>, Seq<char>)>) -> Seq<Seq<char>> {
    jobs.map_values(|j: ((Seq<char>, nat, nat), Seq<ArgView>, Seq<char>)| j.2)
}

pub open spec fn job_views(jobs: Seq<Job>) -> Seq<((Seq<char>, nat, nat), Seq<ArgView>, Seq<char>)> {
    jobs.map_values(|j: Job| j@)
}

pub open spec fn arg_views(args: Seq<CommandArg>) -> Seq<ArgView> {
    args.map_values(|a: CommandArg| a@)
}

/// Whether the resource entry `name` is a track to convert.
pub fn is_input_file_name(name: &str) -> (r: bool)
    ensures
        r == is_input_name(name@),
{
    proof {
        reveal_strlit(".flac");
    }
    let n = name.unicode_len();
    if n <= 5 {
        return false;
    }
    let r = name.get_char(n - 5) == '.' && name.get_char(n - 4) == 'f' && name.get_char(n - 3) == 'l'
        && name.get_char(n - 2) == 'a' && name.get_char(n - 1) == 'c';
    let ghost tail = name@.subrange(n - 5, n as int);
    assert(tail[0] == name@[n - 5] && tail[1] == name@[n - 4] && tail[2] == name@[n - 3]
        && tail[3] == name@[n - 2] && tail[4] == name@[n - 1]);
    if r {
        assert(tail =~= ".flac"@);
    }
    r
}

/// Positions, in listing order, of the tracks among the resource entries.
pub fn select_inputs(entries: &Vec<String>) -> (r: Vec<usize>)
    ensures
        r@.map_values(|i: usize| i as int) == input_positions(views(entries@)),
{
    let ghost names = views(entries@);
    let mut r: Vec<usize> = Vec::new();
    let mut i: usize = 0;
    assert(names.take(0) =~= Seq::<Seq<char>>::empty());
    while i < entries.len()
        invariant
            i <= entries.len(),
            names == views(entries@),
            r@.map_values(|i: usize| i as int) == input_positions(names.take(i as int)),
        decreases entries.len() - i,
    {
        let keep = is_input_file_name(entries[i].as_str());
        proof {
            assert(names.take(i + 1).drop_last() =~= names.take(i as int));
            assert(names.take(i + 1).last() == entries@[i as int]@);
        }
        if keep {
            r.push(i);
            assert(r@.map_values(|i: usize| i as int) =~= input_positions(names.take(i as int)).push(i as int));
        }
        i = i + 1;
    }
    assert(names.take(i as int) =~= names);
    r
}

/// The file written for the track `name`.
fn converted_file_name(name: &String, format: AudioFormat) -> (r: String)
    requires
        is_input_name(name@),
    ensures
        r@ == converted_name(name@, format),
{
    let n = name.as_str().unicode_len();
    let mut r = owned(name.as_str().substring_char(0, n - 5));
    r.append(".");
    r.append(format.extension());
    r
}

fn push_text(args: &mut Vec<CommandArg>, s: &str)
    ensures
        arg_views(final(args)@) == arg_views(old(args)@).push(ArgView::Text(s@)),
{
    args.push(CommandArg::Text(owned(s)));
    assert(arg_views(args@) =~= arg_views(old(args)@).push(ArgView::Text(s@)));
}

fn push_encoder_args(args: &mut Vec<CommandArg>, format: AudioFormat)
    ensures
        arg_views(final(args)@) == arg_views(old(args)@) + encoder_arg_views(format),
{
    let enc = format.ffmpeg_args();
    let ghost start = arg_views(args@);
    let mut i: usize = 0;
    while i < enc.len()
        invariant
            i <= enc.len(),
            enc@.map_values(|s: &'static str| s@) == encoder_args_of(format),
            arg_views(args@) == start + encoder_arg_views(format).take(i as int),
        decreases enc.len() - i,
    {
        push_text(args, enc[i]);
        assert(encoder_arg_views(format).take(i + 1) =~= encoder_arg_views(format).take(i as int).push(
            ArgView::Text(enc@[i as int]@),
        ));
        i = i + 1;
    }
    assert(encoder_arg_views(format).take(i as int) =~= encoder_arg_views(format));
}

/// The job converting the `k`-th of `total` tracks, listed at position `pos`.
fn single_file_job(entries: &Vec<String>, pos: usize, k: usize, total: usize, format: AudioFormat, normalize: bool) -> (r: Job)
    requires
        pos < entries.len(),
        is_input_name(entries@[pos as int]@),
    ensures
        r@ == ((entries@[pos as int]@, k as nat, total as nat), single_args(
            pos as int,
            converted_name(entries@[pos as int]@, format),
            format,
            normalize,
        ), converted_name(entries@[pos as int]@, format)),
{
    let name = &entries[pos];
    let mut args: Vec<CommandArg> = Vec::new();
    assert(arg_views(args@) =~= Seq::<ArgView>::empty());
    push_text(&mut args, "-y");
    push_text(&mut args, "-i");
    let ghost two = arg_views(args@);
    args.push(CommandArg::Input(pos));
    let ghost head = arg_views(args@);
    assert(head =~= two.push(ArgView::Input(pos as nat)));
    assert(head =~= seq![ArgView::Text("-y"@), ArgView::Text("-i"@), ArgView::Input(pos as nat)]);
    if normalize {
        push_text(&mut args, "-af");
        push_text(&mut args, "dynaudnorm");
    }
    assert(arg_views(args@) =~= head + normalize_args(normalize));
    push_encoder_args(&mut args, format);
    let out = converted_file_name(name, format);
    let ghost body = arg_views(args@);
    args.push(CommandArg::Output(converted_file_name(name, format)));
    assert(arg_views(args@) =~= body.push(ArgView::Output(converted_name(name@, format))));
    let r = Job { progress: ProgressInfo { filename: name.clone(), current: k, total }, args, output_name: out };
    assert(arg_views(r.args@) =~= single_args(pos as int, converted_name(name@, format), format, normalize));
    r
}

/// The job mixing the tracks listed at positions `ps` into one file.
fn mix_job(ps: &Vec<usize>, format: AudioFormat, normalize: bool) -> (r: Job)
    ensures
        r@ == (("Mixed output"@, 0nat, 1nat), mix_args(ps@.map_values(|i: usize| i as int), format, normalize), mixed_name(format)),
{
    let ghost psi = ps@.map_values(|i: usize| i as int);
    let mut args: Vec<CommandArg> = Vec::new();
    assert(arg_views(args@) =~= Seq::<ArgView>::empty());
    push_text(&mut args, "-y");
    let ghost first = arg_views(args@);
    assert(psi.take(0) =~= Seq::<int>::empty());
    let mut j: usize = 0;
    while j < ps.len()
        invariant
            j <= ps.len(),
            psi == ps@.map_values(|i: usize| i as int),
            first == seq![ArgView::Text("-y"@)],
            arg_views(args@) == first + input_args(psi.take(j as int)),
        decreases ps.len() - j,
    {
        push_text(&mut args, "-i");
        let ghost before = arg_views(args@);
        args.push(CommandArg::Input(ps[j]));
        assert(arg_views(args@) =~= before.push(ArgView::Input(ps@[j as int] as nat)));
        assert(psi.take(j + 1).drop_last() =~= psi.take(j as int));
        assert(arg_views(args@) =~= first + input_args(psi.take(j + 1)));
        j = j + 1;
    }
    assert(psi.take(j as int) =~= psi);
    push_text(&mut args, "-filter_complex");
    let ghost before_graph = arg_views(args@);
    args.push(CommandArg::Text(mix_filter_graph(ps.len(), normalize)));
    assert(arg_views(args@) =~= before_graph.push(ArgView::Text(filter_graph(psi.len(), normalize))));
    push_text(&mut args, "-map");
    push_text(&mut args, "[aud]");
    push_encoder_args(&mut args, format);
    let mut out = owned("craig.");
    out.append(format.extension());
    let mut out_arg = owned("craig.");
    out_arg.append(format.extension());
    let ghost body = arg_views(args@);
    args.push(CommandArg::Output(out_arg));
    assert(arg_views(args@) =~= body.push(ArgView::Output(mixed_name(format))));
    assert(arg_views(args@) =~= mix_args(psi, format, normalize));
    Job { progress: ProgressInfo { filename: owned("Mixed output"), current: 0, total: 1 }, args, output_name: out }
}

/// The project manifest importing the files that `jobs` write.
fn build_manifest(jobs: &Vec<Job>) -> (r: String)
    ensures
        r@ == project_manifest(output_names(job_views(jobs@))),
{
    let ghost outs = output_names(job_views(jobs@));
    let mut r = owned(AUP_HEADER);
    let mut i: usize = 0;
    assert(outs.take(0) =~= Seq::<Seq<char>>::empty());
    while i < jobs.len()
        invariant
            i <= jobs.len(),
            outs == output_names(job_views(jobs@)),
            r@ == AUP_HEADER@ + import_lines(outs.take(i as int)),
        decreases jobs.len() - i,
    {
        r.append("\t<import filename=\"");
        r.append(jobs[i].output_name.as_str());
        r.append("\" offset=\"0.00000000\" mute=\"0\" solo=\"0\" height=\"150\" minimized=\"0\" gain=\"1.0\" pan=\"0.0\"/>\n");
        proof {
            assert(outs.take(i + 1).drop_last() =~= outs.take(i as int));
            assert(outs.take(i + 1).last() == jobs@[i as int].output_name@);
        }
        assert(r@ =~= AUP_HEADER@ + import_lines(outs.take(i + 1)));
        i = i + 1;
    }
    assert(outs.take(i as int) =~= outs);
    r.append("</project>");
    r
}

/// The folder, under the output root, that receives the converted files of `format`.
pub fn data_subfolder(format: AudioFormat) -> (r: Option<&'static str>)
    ensures
        r is Some <==> is_project(format),
        r is Some ==> r->Some_0@ == AUP_FOLDER_NAME@,
{
    if format.is_project_format() {
        Some(AUP_FOLDER_NAME)
    } else {
        None
    }
}

/// Plans a run over the entries listed in the resource folder: which tracks are
/// converted (or mixed), with which arguments, what progress is reported before each
/// invocation, where the output goes and, for a project format, the manifest.
pub fn plan_conversion(entries: &Vec<String>, format: AudioFormat, normalize: bool, mix: bool) -> (r: ConversionPlan)
    ensures
        job_views(r.jobs@) == planned_jobs(views(entries@), format, normalize, mix),
        r.output_subfolder is Some <==> is_project(format),
        r.output_subfolder matches Some(d) ==> d@ == AUP_FOLDER_NAME@,
        r.manifest is Some <==> is_project(format),
        r.manifest matches Some(m) ==> m@ == project_manifest(
            output_names(planned_jobs(views(entries@), format, normalize, mix)),
        ),
{
    let ghost names = views(entries@);
    let ps = select_inputs(entries);
    let ghost psi = ps@.map_values(|i: usize| i as int);
    proof {
        crate::text::lemma_positions_where(names, |s: Seq<char>| is_input_name(s));
    }
    let mut jobs: Vec<Job> = Vec::new();
    if mix && ps.len() > 0 {
        jobs.push(mix_job(&ps, format, normalize));
        assert(job_views(jobs@) =~= planned_jobs(names, format, normalize, mix));
    } else {
        let total = ps.len();
        let mut k: usize = 0;
        while k < total
            invariant
                k <= total == ps.len(),
                names == views(entries@),
                psi == ps@.map_values(|i: usize| i as int),
                psi == input_positions(names),
                !(mix && ps.len() > 0),
                forall|j: int| 0 <= j < psi.len() ==> 0 <= #[trigger] psi[j] < names.len() && is_input_name(names[psi[j]]),
                job_views(jobs@) =~= planned_jobs(names, format, normalize, mix).take(k as int),
            decreases total - k,
        {
            assert(0 <= psi[k as int] < names.len() && is_input_name(names[psi[k as int]]));
            let job = single_file_job(entries, ps[k], k, total, format, normalize);
            proof {
                let pj = planned_jobs(names, format, normalize, mix);
                assert(psi[k as int] == ps@[k as int] as int);
                assert(names[psi[k as int]] == entries@[ps@[k as int] as int]@);
                assert(pj[k as int] == single_job(names, k as int, format, normalize));
                assert(job@ == single_job(names, k as int, format, normalize));
            }
            let ghost prev = job_views(jobs@);
            let ghost jv = job@;
            jobs.push(job);
            assert(job_views(jobs@) =~= prev.push(jv));
            assert(job_views(jobs@) =~= planned_jobs(names, format, normalize, mix).take(k + 1));
            k = k + 1;
        }
        assert(job_views(jobs@) =~= planned_jobs(names, format, normalize, mix));
    }
    let project = format.is_project_format();
    let manifest = if project { Some(build_manifest(&jobs)) } else { None };
    let output_subfolder = match data_subfolder(format) {
        Some(d) => Some(owned(d)),
        None => None,
    };
    ConversionPlan { output_subfolder, jobs, manifest }
}

} // verus!
