//! The verified build pipeline: compile, link, status check, uniform
//! lookup.
//!
//! Every function takes the driver context explicitly and is verified
//! against the driver model of [`crate::driver`]. Diagnostic logs are
//! retrieved bounds-safely: the driver reports a log length that includes
//! its trailing terminator, the buffer is sized to one byte less, and a
//! reported length of `0` or `1` yields the empty message instead of
//! underflowing. Every shader handle a build consumes is released on every
//! exit path, including link failure.

use vstd::prelude::*;

use crate::driver::{
    compiles, CompileStatus, DriverContext, LinkState, ProgramModel, ShaderModel, Stage,
};

verus! {

/// Error of a failed program link, carrying the driver's diagnostic text.
#[derive(Debug, Clone, PartialEq, Eq)]
pub enum ProgramError {
    LinkFailure(String),
}

/// Error of a failed uniform lookup: the program handle, the queried name,
/// and the raw negative value the driver returned.
#[derive(Debug, Clone, PartialEq, Eq)]
pub enum UniformError {
    NotFound(u32, Vec<u8>, i32),
}

/// Error of a failed shader compile: the stage and the driver's
/// diagnostic text.
#[derive(Debug, Clone, PartialEq, Eq)]
pub struct CompileError {
    pub stage: Stage,
    pub log: String,
}

/// The fixed placeholder message substituted for a diagnostic log that is
/// not valid UTF-8.
pub open spec fn invalid_log_placeholder() -> Seq<char> {
    "ProgramInfoLog not valid utf8"@
}

/// The message a stored diagnostic log yields: its UTF-8 text, or the
/// fixed placeholder when the bytes are not valid UTF-8.
pub open spec fn log_text(log: Seq<u8>) -> Seq<char> {
    if vstd::utf8::valid_utf8(log) {
        vstd::utf8::decode_utf8(log)
    } else {
        invalid_log_placeholder()
    }
}

/// A zero-length diagnostic log yields the empty message: the guarded
/// buffer sizing never underflows and nothing is retrieved.
pub proof fn lemma_empty_log_text()
    ensures
        log_text(Seq::<u8>::empty()) == Seq::<char>::empty(),
{
    assert(vstd::utf8::valid_utf8(Seq::<u8>::empty()));
    assert(vstd::utf8::decode_utf8(Seq::<u8>::empty()) =~= Seq::<char>::empty());
}

/// Relies on `String::from_utf8`: it succeeds exactly on input that is
/// valid UTF-8, and then returns the string those bytes encode.
#[verifier::external_body]
fn bytes_to_string(bytes: Vec<u8>) -> (r: Option<String>)
    ensures
        r is Some <==> vstd::utf8::valid_utf8(bytes@),
        r matches Some(s) ==> s@ == vstd::utf8::decode_utf8(bytes@),
{
    match String::from_utf8(bytes) {
        Ok(s) => Some(s),
        Err(_) => None,
    }
}

/// The buffer size for retrieving a diagnostic log whose reported length
/// includes the trailing terminator: one byte less, guarded so that a
/// reported length of `0` or `1` never underflows.
fn guarded_log_buffer_len(reported: usize) -> (n: usize)
    ensures
        n == if reported <= 1 {
            0int
        } else {
            reported - 1
        },
{
    if reported <= 1 {
        0
    } else {
        reported - 1
    }
}

/// Decodes a retrieved diagnostic log, substituting the fixed placeholder
/// when the bytes are not valid UTF-8.
fn decode_log(bytes: Vec<u8>) -> (msg: String)
    ensures
        msg@ == log_text(bytes@),
{
    match bytes_to_string(bytes) {
        Some(s) => s,
        None => "ProgramInfoLog not valid utf8".to_owned(),
    }
}

/// Finishes a raw log retrieval: of the bytes a driver wrote into a buffer
/// sized to its reported log length, keeps at most the written count and
/// never the trailing terminator (one byte less than the reported length,
/// guarded against a reported length of `0` or `1`), and decodes the rest.
pub fn finish_log_retrieval(reported: usize, written: usize, bytes: Vec<u8>) -> (msg: String)
    ensures
        ({
            let cap = if reported <= 1 {
                0int
            } else {
                reported - 1
            };
            let keep = if written <= cap {
                written as int
            } else {
                cap
            };
            msg@ == log_text(crate::driver::log_prefix(bytes@, keep))
        }),
{
    let cap = guarded_log_buffer_len(reported);
    let keep = if written <= cap {
        written
    } else {
        cap
    };
    let ghost raw = bytes@;
    let mut kept = bytes;
    kept.truncate(keep);
    proof {
        assert(kept@ =~= crate::driver::log_prefix(raw, keep as int));
    }
    decode_log(kept)
}

/// Bounds-safe retrieval of a program's diagnostic log. The driver reports
/// the log length including its trailing terminator; the buffer is sized
/// to one byte less, guarded so that a reported length of `0` or `1`
/// yields the empty message instead of underflowing.
fn retrieve_program_log(ctx: &DriverContext, program: u32) -> (msg: String)
    requires
        ctx.wf(),
    ensures
        msg@ == log_text(ctx.program_log(program)),
{
    let len = ctx.get_program_info_log_length(program);
    let want = guarded_log_buffer_len(len);
    let bytes = ctx.get_program_info_log(program, want);
    proof {
        assert(bytes@ =~= ctx.program_log(program));
    }
    decode_log(bytes)
}

/// Bounds-safe retrieval of a shader's diagnostic log, with the same
/// guard as [`retrieve_program_log`].
fn retrieve_shader_log(ctx: &DriverContext, shader: u32) -> (msg: String)
    requires
        ctx.wf(),
    ensures
        msg@ == log_text(ctx.shader_log(shader)),
{
    let len = ctx.get_shader_info_log_length(shader);
    let want = guarded_log_buffer_len(len);
    let bytes = ctx.get_shader_info_log(shader, want);
    proof {
        assert(bytes@ =~= ctx.shader_log(shader));
    }
    decode_log(bytes)
}

/// What [`check_link_status`] promises of its result: `Ok` exactly when
/// the program is live and linked, and a failure carries the decoded
/// diagnostic log of the program.
pub open spec fn link_check_post(
    ctx: &DriverContext,
    program: u32,
    r: Result<(), ProgramError>,
) -> bool {
    &&& (r is Ok <==> ctx.program_linked(program))
    &&& (r matches Err(ProgramError::LinkFailure(msg)) ==> msg@ == log_text(
        ctx.program_log(program),
    ))
}

/// No handle among the first `k` of `shaders` equals `h`.
spec fn handle_absent(shaders: Seq<u32>, k: int, h: u32) -> bool {
    forall|j: int| 0 <= j < k ==> shaders[j] != h
}

/// Queries the link status of `program`. On failure the driver's
/// diagnostic log is retrieved bounds-safely and returned verbatim as the
/// error message; success has no side effects.
pub fn check_link_status(ctx: &DriverContext, program: u32) -> (r: Result<(), ProgramError>)
    requires
        ctx.wf(),
    ensures
        link_check_post(ctx, program, r),
{
    if ctx.get_link_status(program) {
        Ok(())
    } else {
        Err(ProgramError::LinkFailure(retrieve_program_log(ctx, program)))
    }
}

/// `check_link_status` is idempotent: it borrows the driver context
/// immutably, so two consecutive calls on the same program see the same
/// state, and any two results its contract admits on one state are
/// identical.
pub proof fn lemma_check_link_status_idempotent(
    ctx: &DriverContext,
    program: u32,
    r1: Result<(), ProgramError>,
    r2: Result<(), ProgramError>,
)
    requires
        link_check_post(ctx, program, r1),
        link_check_post(ctx, program, r2),
    ensures
        r1 is Ok <==> r2 is Ok,
        r1 matches Err(ProgramError::LinkFailure(m1)) ==> (r2 matches Err(
            ProgramError::LinkFailure(m2),
        ) ==> m1@ == m2@),
{
}

/// Resolves a uniform name against a linked program. Any location the
/// driver reports that is not negative is a success; any negative value is
/// surfaced as [`UniformError::NotFound`] with the raw value preserved,
/// never a crash — also when `program` is not a linked live program.
pub fn get_uniform_location(ctx: &DriverContext, program: u32, name: &[u8]) -> (r: Result<
    i32,
    UniformError,
>)
    requires
        ctx.wf(),
    ensures
        r is Ok <==> ctx.uniform_location(program, name@) >= 0,
        r matches Ok(loc) ==> loc >= 0 && loc as int == ctx.uniform_location(program, name@),
        r matches Err(UniformError::NotFound(p, n, raw)) ==> p == program && n@ == name@ && raw
            < 0 && raw as int == ctx.uniform_location(program, name@),
{
    let raw = ctx.get_uniform_location_raw(program, name);
    classify_uniform_location(program, vstd::slice::slice_to_vec(name), raw)
}

/// The success split on a raw driver location: any value that is not
/// negative is a usable location, any negative value means "not present"
/// and is preserved verbatim in [`UniformError::NotFound`].
pub fn classify_uniform_location(program: u32, name: Vec<u8>, raw: i32) -> (r: Result<
    i32,
    UniformError,
>)
    ensures
        r is Ok <==> raw >= 0,
        r matches Ok(loc) ==> loc == raw,
        r matches Err(UniformError::NotFound(p, n, c)) ==> p == program && n@ == name@ && c
            == raw,
{
    if raw >= 0 {
        Ok(raw)
    } else {
        Err(UniformError::NotFound(program, name, raw))
    }
}

/// Links a program from compiled shader handles: creates a program
/// object, attaches every handle in the given order, links, and checks the
/// result. Every input handle is released on every exit path — on success
/// because its code is now embodied in the program binary, on failure so
/// that no shader object leaks; on failure the program object is released
/// too and the error carries the driver's diagnostic log.
pub fn link_from_shaders(ctx: &mut DriverContext, shaders: &[u32]) -> (r: Result<
    u32,
    ProgramError,
>)
    requires
        old(ctx).wf(),
        old(ctx).program_count() < u32::MAX,
    ensures
        final(ctx).wf(),
        // no shader handle of this build stays live, on success or failure
        forall|i: int| 0 <= i < shaders@.len() ==> !final(ctx).shader_live(#[trigger] shaders@[i]),
        // shaders not named in the build are untouched
        final(ctx).shader_count() == old(ctx).shader_count(),
        forall|h: u32|
            !shaders@.contains(h) ==> final(ctx).shader_model(h) == old(ctx).shader_model(h),
        // other programs and the configured diagnostics are untouched
        forall|q: u32|
            q != old(ctx).program_count() + 1 ==> final(ctx).program_model(q) == old(
                ctx,
            ).program_model(q),
        final(ctx).same_diags(old(ctx)),
        // success exactly when every handle names a compiled shader
        r is Ok <==> old(ctx).all_attached_ok(shaders@),
        r matches Ok(p) ==> ({
            &&& p == old(ctx).program_count() + 1
            &&& final(ctx).program_count() == old(ctx).program_count() + 1
            &&& final(ctx).program_model(p) == Some(
                ProgramModel {
                    state: LinkState::Linked,
                    attached: shaders@,
                    log: Seq::<u8>::empty(),
                    uniforms: old(ctx).linked_uniforms(shaders@),
                },
            )
        }),
        r matches Err(ProgramError::LinkFailure(msg)) ==> ({
            &&& msg@ == log_text(old(ctx).link_diagnostic())
            &&& final(ctx).program_count() == old(ctx).program_count() + 1
            &&& final(ctx).program_model((old(ctx).program_count() + 1) as u32) is None
        }),
{
    let program = ctx.create_program();
    proof {
        assert(shaders@.take(0) =~= Seq::<u32>::empty());
    }
    let mut i: usize = 0;
    while i < shaders.len()
        invariant
            i <= shaders@.len(),
            ctx.wf(),
            old(ctx).wf(),
            old(ctx).program_count() < u32::MAX,
            program == old(ctx).program_count() + 1,
            ctx.program_count() == old(ctx).program_count() + 1,
            ctx.program_model(program) == Some(
                ProgramModel {
                    state: LinkState::Building,
                    attached: shaders@.take(i as int),
                    log: Seq::<u8>::empty(),
                    uniforms: Seq::<Seq<u8>>::empty(),
                },
            ),
            forall|q: u32| q != program ==> ctx.program_model(q) == old(ctx).program_model(q),
            ctx.same_shaders(old(ctx)),
            ctx.same_diags(old(ctx)),
        decreases shaders@.len() - i,
    {
        ctx.attach_shader(program, shaders[i]);
        proof {
            assert(shaders@.take(i as int).push(shaders@[i as int]) =~= shaders@.take(
                i as int + 1,
            ));
        }
        i += 1;
    }
    proof {
        assert(shaders@.take(shaders@.len() as int) =~= shaders@);
    }
    let ghost pre = *ctx;
    proof {
        assert(pre.source_list(shaders@) =~= old(ctx).source_list(shaders@));
        assert forall|j: int| 0 <= j < shaders@.len() implies pre.shader_ok(
            #[trigger] shaders@[j],
        ) == old(ctx).shader_ok(shaders@[j]) by {}
        assert(pre.all_attached_ok(shaders@) == old(ctx).all_attached_ok(shaders@));
    }
    ctx.link_program(program);
    let status = check_link_status(ctx, program);
    let ghost post_link = *ctx;
    let mut k: usize = 0;
    while k < shaders.len()
        invariant
            k <= shaders@.len(),
            ctx.wf(),
            forall|j: int| 0 <= j < k ==> !ctx.shader_live(#[trigger] shaders@[j]),
            forall|h: u32|
                #![trigger ctx.shader_model(h)]
                handle_absent(shaders@, k as int, h) ==> ctx.shader_model(h)
                    == post_link.shader_model(h),
            ctx.shader_count() == post_link.shader_count(),
            forall|q: u32| ctx.program_model(q) == post_link.program_model(q),
            ctx.program_count() == post_link.program_count(),
            ctx.same_diags(&post_link),
        decreases shaders@.len() - k,
    {
        ctx.delete_shader(shaders[k]);
        k += 1;
    }
    proof {
        assert forall|h: u32| !shaders@.contains(h) implies handle_absent(
            shaders@,
            shaders@.len() as int,
            h,
        ) by {}
    }
    match status {
        Ok(_) => Ok(program),
        Err(e) => {
            ctx.delete_program(program);
            Err(e)
        },
    }
}

/// Compiles one shader stage: creates a shader object, submits the
/// source, issues the compile, and checks the compile status. On failure
/// the driver's diagnostic log is retrieved bounds-safely, the shader
/// object is released, and both are returned in the error; on success the
/// returned live handle is the only side effect.
pub fn compile(ctx: &mut DriverContext, source: &[u8], stage: Stage) -> (r: Result<
    u32,
    CompileError,
>)
    requires
        old(ctx).wf(),
        old(ctx).shader_count() < u32::MAX,
    ensures
        final(ctx).wf(),
        final(ctx).shader_count() == old(ctx).shader_count() + 1,
        forall|h2: u32|
            h2 != old(ctx).shader_count() + 1 ==> final(ctx).shader_model(h2) == old(
                ctx,
            ).shader_model(h2),
        final(ctx).same_programs(old(ctx)),
        final(ctx).same_diags(old(ctx)),
        r is Ok <==> compiles(source@),
        r matches Ok(h) ==> h == old(ctx).shader_count() + 1 && final(ctx).shader_model(h) == Some(
            ShaderModel {
                stage,
                source: source@,
                status: CompileStatus::Succeeded,
                log: Seq::<u8>::empty(),
            },
        ),
        r matches Err(e) ==> e.stage == stage && e.log@ == log_text(old(ctx).compile_diagnostic())
            && final(ctx).shader_model((old(ctx).shader_count() + 1) as u32) is None,
{
    let shader = ctx.create_shader(stage);
    ctx.set_shader_source(shader, source);
    ctx.compile_shader(shader);
    if ctx.get_compile_status(shader) {
        Ok(shader)
    } else {
        let msg = retrieve_shader_log(ctx, shader);
        ctx.delete_shader(shader);
        Err(CompileError { stage, log: msg })
    }
}

/// Builds a program from a vertex and a fragment source: compiles both
/// stages and links them. Succeeds exactly when both sources compile, and
/// then every shader handle the build created has already been released —
/// the set of live shader handles is exactly what it was before the call.
/// On a compile failure the error carries the failing stage and the
/// driver's diagnostic text, and nothing else is left behind.
pub fn build_program(ctx: &mut DriverContext, vertex_source: &[u8], fragment_source: &[u8]) -> (r:
    Result<u32, CompileError>)
    requires
        old(ctx).wf(),
        old(ctx).shader_count() + 2 <= u32::MAX,
        old(ctx).program_count() < u32::MAX,
    ensures
        final(ctx).wf(),
        // the live shader set is unchanged: old handles are untouched and
        // every handle this build created is released again
        forall|h: u32|
            h <= old(ctx).shader_count() ==> final(ctx).shader_model(h) == old(ctx).shader_model(
                h,
            ),
        forall|h: u32| h > old(ctx).shader_count() ==> final(ctx).shader_model(h) is None,
        final(ctx).same_diags(old(ctx)),
        r is Ok <==> compiles(vertex_source@) && compiles(fragment_source@),
        r matches Ok(p) ==> ({
            &&& p == old(ctx).program_count() + 1
            &&& final(ctx).program_count() == old(ctx).program_count() + 1
            &&& forall|q: u32|
                q != p ==> final(ctx).program_model(q) == old(ctx).program_model(q)
            &&& final(ctx).program_model(p) matches Some(m) && m.state == LinkState::Linked
                && m.uniforms == crate::driver::uniforms_of_sources(
                seq![vertex_source@, fragment_source@],
                2,
            )
        }),
        r matches Err(e) ==> ({
            &&& final(ctx).same_programs(old(ctx))
            &&& e.log@ == log_text(old(ctx).compile_diagnostic())
            &&& (!compiles(vertex_source@) ==> e.stage == Stage::Vertex)
            &&& (compiles(vertex_source@) ==> e.stage == Stage::Fragment && !compiles(
                fragment_source@,
            ))
        }),
{
    let vs = match compile(ctx, vertex_source, Stage::Vertex) {
        Ok(h) => h,
        Err(e) => {
            proof {
                assert forall|h: u32|
                    h > old(ctx).shader_count() implies ctx.shader_model(h) is None by {
                    if h > old(ctx).shader_count() + 1 {
                        crate::driver::lemma_shader_handle_range(old(ctx), h);
                    }
                }
            }
            return Err(e);
        },
    };
    let fs = match compile(ctx, fragment_source, Stage::Fragment) {
        Ok(h) => h,
        Err(e) => {
            ctx.delete_shader(vs);
            proof {
                assert forall|h: u32|
                    h > old(ctx).shader_count() implies ctx.shader_model(h) is None by {
                    if h > old(ctx).shader_count() + 2 {
                        crate::driver::lemma_shader_handle_range(old(ctx), h);
                    }
                }
            }
            return Err(e);
        },
    };
    let mut handles: Vec<u32> = Vec::new();
    handles.push(vs);
    handles.push(fs);
    proof {
        assert forall|j: int| 0 <= j < handles@.len() implies ctx.shader_ok(
            #[trigger] handles@[j],
        ) by {
            assert(handles@[0] == vs && handles@[1] == fs);
        }
        assert(ctx.source_list(handles@) =~= seq![vertex_source@, fragment_source@]);
    }
    let r = link_from_shaders(ctx, handles.as_slice());
    proof {
        assert forall|h: u32| h != vs && h != fs implies !handles@.contains(h) by {
            assert(handles@.len() == 2);
            assert(handles@[0] == vs);
            assert(handles@[1] == fs);
        }
        assert(!ctx.shader_live(handles@[0]) && !ctx.shader_live(handles@[1]));
        assert forall|h: u32| h > old(ctx).shader_count() implies ctx.shader_model(h) is None by {
            if h > old(ctx).shader_count() + 2 {
                crate::driver::lemma_shader_handle_range(old(ctx), h);
            }
        }
    }
    match r {
        Ok(p) => Ok(p),
        Err(_) => vstd::pervasive::unreached(),
    }
}

} // verus!
