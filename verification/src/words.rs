//! Byte-string constants: each word the crate compares against or emits has
//! a spec-level sequence and an executable constructor proved to match it.

use vstd::prelude::*;

verus! {

/// The bytes of `//@`.
pub open spec fn w_at_prefix() -> Seq<u8> {
    seq![47u8, 47u8, 64u8]
}

/// Build the bytes of `//@`.
pub fn b_at_prefix() -> (r: Vec<u8>)
    ensures
        r@ == w_at_prefix(),
{
    let a: [u8; 3] = [47, 47, 64];
    let r = vstd::slice::slice_to_vec(a.as_slice());
    proof {
        assert(r@ =~= w_at_prefix());
    }
    r
}

/// The bytes of `//~`.
pub open spec fn w_tilde_prefix() -> Seq<u8> {
    seq![47u8, 47u8, 126u8]
}

/// Build the bytes of `//~`.
pub fn b_tilde_prefix() -> (r: Vec<u8>)
    ensures
        r@ == w_tilde_prefix(),
{
    let a: [u8; 3] = [47, 47, 126];
    let r = vstd::slice::slice_to_vec(a.as_slice());
    proof {
        assert(r@ =~= w_tilde_prefix());
    }
    r
}

/// The bytes of `revisions`.
pub open spec fn w_revisions() -> Seq<u8> {
    seq![114u8, 101u8, 118u8, 105u8, 115u8, 105u8, 111u8, 110u8, 115u8]
}

/// Build the bytes of `revisions`.
pub fn b_revisions() -> (r: Vec<u8>)
    ensures
        r@ == w_revisions(),
{
    let a: [u8; 9] = [114, 101, 118, 105, 115, 105, 111, 110, 115];
    let r = vstd::slice::slice_to_vec(a.as_slice());
    proof {
        assert(r@ =~= w_revisions());
    }
    r
}

/// The bytes of `compile-flags`.
pub open spec fn w_compile_flags() -> Seq<u8> {
    seq![99u8, 111u8, 109u8, 112u8, 105u8, 108u8, 101u8, 45u8, 102u8, 108u8, 97u8, 103u8, 115u8]
}

/// Build the bytes of `compile-flags`.
pub fn b_compile_flags() -> (r: Vec<u8>)
    ensures
        r@ == w_compile_flags(),
{
    let a: [u8; 13] = [99, 111, 109, 112, 105, 108, 101, 45, 102, 108, 97, 103, 115];
    let r = vstd::slice::slice_to_vec(a.as_slice());
    proof {
        assert(r@ =~= w_compile_flags());
    }
    r
}

/// The bytes of `rustc-env`.
pub open spec fn w_rustc_env() -> Seq<u8> {
    seq![114u8, 117u8, 115u8, 116u8, 99u8, 45u8, 101u8, 110u8, 118u8]
}

/// Build the bytes of `rustc-env`.
pub fn b_rustc_env() -> (r: Vec<u8>)
    ensures
        r@ == w_rustc_env(),
{
    let a: [u8; 9] = [114, 117, 115, 116, 99, 45, 101, 110, 118];
    let r = vstd::slice::slice_to_vec(a.as_slice());
    proof {
        assert(r@ =~= w_rustc_env());
    }
    r
}

/// The bytes of `env-var`.
pub open spec fn w_env_var() -> Seq<u8> {
    seq![101u8, 110u8, 118u8, 45u8, 118u8, 97u8, 114u8]
}

/// Build the bytes of `env-var`.
pub fn b_env_var() -> (r: Vec<u8>)
    ensures
        r@ == w_env_var(),
{
    let a: [u8; 7] = [101, 110, 118, 45, 118, 97, 114];
    let r = vstd::slice::slice_to_vec(a.as_slice());
    proof {
        assert(r@ =~= w_env_var());
    }
    r
}

/// The bytes of `normalize-stderr-test`.
pub open spec fn w_normalize_stderr_test() -> Seq<u8> {
    seq![110u8, 111u8, 114u8, 109u8, 97u8, 108u8, 105u8, 122u8, 101u8, 45u8, 115u8, 116u8, 100u8, 101u8, 114u8, 114u8, 45u8, 116u8, 101u8, 115u8, 116u8]
}

/// Build the bytes of `normalize-stderr-test`.
pub fn b_normalize_stderr_test() -> (r: Vec<u8>)
    ensures
        r@ == w_normalize_stderr_test(),
{
    let a: [u8; 21] = [110, 111, 114, 109, 97, 108, 105, 122, 101, 45, 115, 116, 100, 101, 114, 114, 45, 116, 101, 115, 116];
    let r = vstd::slice::slice_to_vec(a.as_slice());
    proof {
        assert(r@ =~= w_normalize_stderr_test());
    }
    r
}

/// The bytes of `error-pattern`.
pub open spec fn w_error_pattern() -> Seq<u8> {
    seq![101u8, 114u8, 114u8, 111u8, 114u8, 45u8, 112u8, 97u8, 116u8, 116u8, 101u8, 114u8, 110u8]
}

/// Build the bytes of `error-pattern`.
pub fn b_error_pattern() -> (r: Vec<u8>)
    ensures
        r@ == w_error_pattern(),
{
    let a: [u8; 13] = [101, 114, 114, 111, 114, 45, 112, 97, 116, 116, 101, 114, 110];
    let r = vstd::slice::slice_to_vec(a.as_slice());
    proof {
        assert(r@ =~= w_error_pattern());
    }
    r
}

/// The bytes of `require-annotations-for-level`.
pub open spec fn w_require_annotations_for_level() -> Seq<u8> {
    seq![114u8, 101u8, 113u8, 117u8, 105u8, 114u8, 101u8, 45u8, 97u8, 110u8, 110u8, 111u8, 116u8, 97u8, 116u8, 105u8, 111u8, 110u8, 115u8, 45u8, 102u8, 111u8, 114u8, 45u8, 108u8, 101u8, 118u8, 101u8, 108u8]
}

/// Build the bytes of `require-annotations-for-level`.
pub fn b_require_annotations_for_level() -> (r: Vec<u8>)
    ensures
        r@ == w_require_annotations_for_level(),
{
    let a: [u8; 29] = [114, 101, 113, 117, 105, 114, 101, 45, 97, 110, 110, 111, 116, 97, 116, 105, 111, 110, 115, 45, 102, 111, 114, 45, 108, 101, 118, 101, 108];
    let r = vstd::slice::slice_to_vec(a.as_slice());
    proof {
        assert(r@ =~= w_require_annotations_for_level());
    }
    r
}

/// The bytes of `run-rustfix`.
pub open spec fn w_run_rustfix() -> Seq<u8> {
    seq![114u8, 117u8, 110u8, 45u8, 114u8, 117u8, 115u8, 116u8, 102u8, 105u8, 120u8]
}

/// Build the bytes of `run-rustfix`.
pub fn b_run_rustfix() -> (r: Vec<u8>)
    ensures
        r@ == w_run_rustfix(),
{
    let a: [u8; 11] = [114, 117, 110, 45, 114, 117, 115, 116, 102, 105, 120];
    let r = vstd::slice::slice_to_vec(a.as_slice());
    proof {
        assert(r@ =~= w_run_rustfix());
    }
    r
}

/// The bytes of `aux-build`.
pub open spec fn w_aux_build() -> Seq<u8> {
    seq![97u8, 117u8, 120u8, 45u8, 98u8, 117u8, 105u8, 108u8, 100u8]
}

/// Build the bytes of `aux-build`.
pub fn b_aux_build() -> (r: Vec<u8>)
    ensures
        r@ == w_aux_build(),
{
    let a: [u8; 9] = [97, 117, 120, 45, 98, 117, 105, 108, 100];
    let r = vstd::slice::slice_to_vec(a.as_slice());
    proof {
        assert(r@ =~= w_aux_build());
    }
    r
}

/// The bytes of `edition`.
pub open spec fn w_edition() -> Seq<u8> {
    seq![101u8, 100u8, 105u8, 116u8, 105u8, 111u8, 110u8]
}

/// Build the bytes of `edition`.
pub fn b_edition() -> (r: Vec<u8>)
    ensures
        r@ == w_edition(),
{
    let a: [u8; 7] = [101, 100, 105, 116, 105, 111, 110];
    let r = vstd::slice::slice_to_vec(a.as_slice());
    proof {
        assert(r@ =~= w_edition());
    }
    r
}

/// The bytes of `needs-asm-support`.
pub open spec fn w_needs_asm_support() -> Seq<u8> {
    seq![110u8, 101u8, 101u8, 100u8, 115u8, 45u8, 97u8, 115u8, 109u8, 45u8, 115u8, 117u8, 112u8, 112u8, 111u8, 114u8, 116u8]
}

/// Build the bytes of `needs-asm-support`.
pub fn b_needs_asm_support() -> (r: Vec<u8>)
    ensures
        r@ == w_needs_asm_support(),
{
    let a: [u8; 17] = [110, 101, 101, 100, 115, 45, 97, 115, 109, 45, 115, 117, 112, 112, 111, 114, 116];
    let r = vstd::slice::slice_to_vec(a.as_slice());
    proof {
        assert(r@ =~= w_needs_asm_support());
    }
    r
}

/// The bytes of `stderr-per-bitwidth`.
pub open spec fn w_stderr_per_bitwidth() -> Seq<u8> {
    seq![115u8, 116u8, 100u8, 101u8, 114u8, 114u8, 45u8, 112u8, 101u8, 114u8, 45u8, 98u8, 105u8, 116u8, 119u8, 105u8, 100u8, 116u8, 104u8]
}

/// Build the bytes of `stderr-per-bitwidth`.
pub fn b_stderr_per_bitwidth() -> (r: Vec<u8>)
    ensures
        r@ == w_stderr_per_bitwidth(),
{
    let a: [u8; 19] = [115, 116, 100, 101, 114, 114, 45, 112, 101, 114, 45, 98, 105, 116, 119, 105, 100, 116, 104];
    let r = vstd::slice::slice_to_vec(a.as_slice());
    proof {
        assert(r@ =~= w_stderr_per_bitwidth());
    }
    r
}

/// The bytes of `ignore-`.
pub open spec fn w_ignore_dash() -> Seq<u8> {
    seq![105u8, 103u8, 110u8, 111u8, 114u8, 101u8, 45u8]
}

/// Build the bytes of `ignore-`.
pub fn b_ignore_dash() -> (r: Vec<u8>)
    ensures
        r@ == w_ignore_dash(),
{
    let a: [u8; 7] = [105, 103, 110, 111, 114, 101, 45];
    let r = vstd::slice::slice_to_vec(a.as_slice());
    proof {
        assert(r@ =~= w_ignore_dash());
    }
    r
}

/// The bytes of `only-`.
pub open spec fn w_only_dash() -> Seq<u8> {
    seq![111u8, 110u8, 108u8, 121u8, 45u8]
}

/// Build the bytes of `only-`.
pub fn b_only_dash() -> (r: Vec<u8>)
    ensures
        r@ == w_only_dash(),
{
    let a: [u8; 5] = [111, 110, 108, 121, 45];
    let r = vstd::slice::slice_to_vec(a.as_slice());
    proof {
        assert(r@ =~= w_only_dash());
    }
    r
}

/// The bytes of `check-pass`.
pub open spec fn w_check_pass() -> Seq<u8> {
    seq![99u8, 104u8, 101u8, 99u8, 107u8, 45u8, 112u8, 97u8, 115u8, 115u8]
}

/// Build the bytes of `check-pass`.
pub fn b_check_pass() -> (r: Vec<u8>)
    ensures
        r@ == w_check_pass(),
{
    let a: [u8; 10] = [99, 104, 101, 99, 107, 45, 112, 97, 115, 115];
    let r = vstd::slice::slice_to_vec(a.as_slice());
    proof {
        assert(r@ =~= w_check_pass());
    }
    r
}

/// The bytes of `build-pass`.
pub open spec fn w_build_pass() -> Seq<u8> {
    seq![98u8, 117u8, 105u8, 108u8, 100u8, 45u8, 112u8, 97u8, 115u8, 115u8]
}

/// Build the bytes of `build-pass`.
pub fn b_build_pass() -> (r: Vec<u8>)
    ensures
        r@ == w_build_pass(),
{
    let a: [u8; 10] = [98, 117, 105, 108, 100, 45, 112, 97, 115, 115];
    let r = vstd::slice::slice_to_vec(a.as_slice());
    proof {
        assert(r@ =~= w_build_pass());
    }
    r
}

/// The bytes of `run-pass`.
pub open spec fn w_run_pass() -> Seq<u8> {
    seq![114u8, 117u8, 110u8, 45u8, 112u8, 97u8, 115u8, 115u8]
}

/// Build the bytes of `run-pass`.
pub fn b_run_pass() -> (r: Vec<u8>)
    ensures
        r@ == w_run_pass(),
{
    let a: [u8; 8] = [114, 117, 110, 45, 112, 97, 115, 115];
    let r = vstd::slice::slice_to_vec(a.as_slice());
    proof {
        assert(r@ =~= w_run_pass());
    }
    r
}

/// The bytes of `panic`.
pub open spec fn w_panic() -> Seq<u8> {
    seq![112u8, 97u8, 110u8, 105u8, 99u8]
}

/// Build the bytes of `panic`.
pub fn b_panic() -> (r: Vec<u8>)
    ensures
        r@ == w_panic(),
{
    let a: [u8; 5] = [112, 97, 110, 105, 99];
    let r = vstd::slice::slice_to_vec(a.as_slice());
    proof {
        assert(r@ =~= w_panic());
    }
    r
}

/// The bytes of `fail`.
pub open spec fn w_fail() -> Seq<u8> {
    seq![102u8, 97u8, 105u8, 108u8]
}

/// Build the bytes of `fail`.
pub fn b_fail() -> (r: Vec<u8>)
    ensures
        r@ == w_fail(),
{
    let a: [u8; 4] = [102, 97, 105, 108];
    let r = vstd::slice::slice_to_vec(a.as_slice());
    proof {
        assert(r@ =~= w_fail());
    }
    r
}

/// The bytes of `yolo`.
pub open spec fn w_yolo() -> Seq<u8> {
    seq![121u8, 111u8, 108u8, 111u8]
}

/// Build the bytes of `yolo`.
pub fn b_yolo() -> (r: Vec<u8>)
    ensures
        r@ == w_yolo(),
{
    let a: [u8; 4] = [121, 111, 108, 111];
    let r = vstd::slice::slice_to_vec(a.as_slice());
    proof {
        assert(r@ =~= w_yolo());
    }
    r
}

/// The bytes of `16bit`.
pub open spec fn w_bits16() -> Seq<u8> {
    seq![49u8, 54u8, 98u8, 105u8, 116u8]
}

/// Build the bytes of `16bit`.
pub fn b_bits16() -> (r: Vec<u8>)
    ensures
        r@ == w_bits16(),
{
    let a: [u8; 5] = [49, 54, 98, 105, 116];
    let r = vstd::slice::slice_to_vec(a.as_slice());
    proof {
        assert(r@ =~= w_bits16());
    }
    r
}

/// The bytes of `32bit`.
pub open spec fn w_bits32() -> Seq<u8> {
    seq![51u8, 50u8, 98u8, 105u8, 116u8]
}

/// Build the bytes of `32bit`.
pub fn b_bits32() -> (r: Vec<u8>)
    ensures
        r@ == w_bits32(),
{
    let a: [u8; 5] = [51, 50, 98, 105, 116];
    let r = vstd::slice::slice_to_vec(a.as_slice());
    proof {
        assert(r@ =~= w_bits32());
    }
    r
}

/// The bytes of `64bit`.
pub open spec fn w_bits64() -> Seq<u8> {
    seq![54u8, 52u8, 98u8, 105u8, 116u8]
}

/// Build the bytes of `64bit`.
pub fn b_bits64() -> (r: Vec<u8>)
    ensures
        r@ == w_bits64(),
{
    let a: [u8; 5] = [54, 52, 98, 105, 116];
    let r = vstd::slice::slice_to_vec(a.as_slice());
    proof {
        assert(r@ =~= w_bits64());
    }
    r
}

/// The bytes of `host`.
pub open spec fn w_host() -> Seq<u8> {
    seq![104u8, 111u8, 115u8, 116u8]
}

/// Build the bytes of `host`.
pub fn b_host() -> (r: Vec<u8>)
    ensures
        r@ == w_host(),
{
    let a: [u8; 4] = [104, 111, 115, 116];
    let r = vstd::slice::slice_to_vec(a.as_slice());
    proof {
        assert(r@ =~= w_host());
    }
    r
}

/// The bytes of `on-host`.
pub open spec fn w_on_host() -> Seq<u8> {
    seq![111u8, 110u8, 45u8, 104u8, 111u8, 115u8, 116u8]
}

/// Build the bytes of `on-host`.
pub fn b_on_host() -> (r: Vec<u8>)
    ensures
        r@ == w_on_host(),
{
    let a: [u8; 7] = [111, 110, 45, 104, 111, 115, 116];
    let r = vstd::slice::slice_to_vec(a.as_slice());
    proof {
        assert(r@ =~= w_on_host());
    }
    r
}

/// The bytes of `crate-type=`.
pub open spec fn w_crate_type_eq() -> Seq<u8> {
    seq![99u8, 114u8, 97u8, 116u8, 101u8, 45u8, 116u8, 121u8, 112u8, 101u8, 61u8]
}

/// Build the bytes of `crate-type=`.
pub fn b_crate_type_eq() -> (r: Vec<u8>)
    ensures
        r@ == w_crate_type_eq(),
{
    let a: [u8; 11] = [99, 114, 97, 116, 101, 45, 116, 121, 112, 101, 61];
    let r = vstd::slice::slice_to_vec(a.as_slice());
    proof {
        assert(r@ =~= w_crate_type_eq());
    }
    r
}

/// The bytes of `->`.
pub open spec fn w_arrow() -> Seq<u8> {
    seq![45u8, 62u8]
}

/// Build the bytes of `->`.
pub fn b_arrow() -> (r: Vec<u8>)
    ensures
        r@ == w_arrow(),
{
    let a: [u8; 2] = [45, 62];
    let r = vstd::slice::slice_to_vec(a.as_slice());
    proof {
        assert(r@ =~= w_arrow());
    }
    r
}

/// The bytes of `error`.
pub open spec fn w_error() -> Seq<u8> {
    seq![101u8, 114u8, 114u8, 111u8, 114u8]
}

/// Build the bytes of `error`.
pub fn b_error() -> (r: Vec<u8>)
    ensures
        r@ == w_error(),
{
    let a: [u8; 5] = [101, 114, 114, 111, 114];
    let r = vstd::slice::slice_to_vec(a.as_slice());
    proof {
        assert(r@ =~= w_error());
    }
    r
}

/// The bytes of `warn`.
pub open spec fn w_warn() -> Seq<u8> {
    seq![119u8, 97u8, 114u8, 110u8]
}

/// Build the bytes of `warn`.
pub fn b_warn() -> (r: Vec<u8>)
    ensures
        r@ == w_warn(),
{
    let a: [u8; 4] = [119, 97, 114, 110];
    let r = vstd::slice::slice_to_vec(a.as_slice());
    proof {
        assert(r@ =~= w_warn());
    }
    r
}

/// The bytes of `help`.
pub open spec fn w_help() -> Seq<u8> {
    seq![104u8, 101u8, 108u8, 112u8]
}

/// Build the bytes of `help`.
pub fn b_help() -> (r: Vec<u8>)
    ensures
        r@ == w_help(),
{
    let a: [u8; 4] = [104, 101, 108, 112];
    let r = vstd::slice::slice_to_vec(a.as_slice());
    proof {
        assert(r@ =~= w_help());
    }
    r
}

/// The bytes of `note`.
pub open spec fn w_note() -> Seq<u8> {
    seq![110u8, 111u8, 116u8, 101u8]
}

/// Build the bytes of `note`.
pub fn b_note() -> (r: Vec<u8>)
    ensures
        r@ == w_note(),
{
    let a: [u8; 4] = [110, 111, 116, 101];
    let r = vstd::slice::slice_to_vec(a.as_slice());
    proof {
        assert(r@ =~= w_note());
    }
    r
}

/// The bytes of `ico`.
pub open spec fn w_ico() -> Seq<u8> {
    seq![105u8, 99u8, 111u8]
}

/// Build the bytes of `ico`.
pub fn b_ico() -> (r: Vec<u8>)
    ensures
        r@ == w_ico(),
{
    let a: [u8; 3] = [105, 99, 111];
    let r = vstd::slice::slice_to_vec(a.as_slice());
    proof {
        assert(r@ =~= w_ico());
    }
    r
}

/// The bytes of `stderr`.
pub open spec fn w_stderr() -> Seq<u8> {
    seq![115u8, 116u8, 100u8, 101u8, 114u8, 114u8]
}

/// Build the bytes of `stderr`.
pub fn b_stderr() -> (r: Vec<u8>)
    ensures
        r@ == w_stderr(),
{
    let a: [u8; 6] = [115, 116, 100, 101, 114, 114];
    let r = vstd::slice::slice_to_vec(a.as_slice());
    proof {
        assert(r@ =~= w_stderr());
    }
    r
}

/// The bytes of `stdout`.
pub open spec fn w_stdout() -> Seq<u8> {
    seq![115u8, 116u8, 100u8, 111u8, 117u8, 116u8]
}

/// Build the bytes of `stdout`.
pub fn b_stdout() -> (r: Vec<u8>)
    ensures
        r@ == w_stdout(),
{
    let a: [u8; 6] = [115, 116, 100, 111, 117, 116];
    let r = vstd::slice::slice_to_vec(a.as_slice());
    proof {
        assert(r@ =~= w_stdout());
    }
    r
}

/// The bytes of `fixed`.
pub open spec fn w_fixed() -> Seq<u8> {
    seq![102u8, 105u8, 120u8, 101u8, 100u8]
}

/// Build the bytes of `fixed`.
pub fn b_fixed() -> (r: Vec<u8>)
    ensures
        r@ == w_fixed(),
{
    let a: [u8; 5] = [102, 105, 120, 101, 100];
    let r = vstd::slice::slice_to_vec(a.as_slice());
    proof {
        assert(r@ =~= w_fixed());
    }
    r
}

/// The bytes of `--out-dir`.
pub open spec fn w_out_dir_flag() -> Seq<u8> {
    seq![45u8, 45u8, 111u8, 117u8, 116u8, 45u8, 100u8, 105u8, 114u8]
}

/// Build the bytes of `--out-dir`.
pub fn b_out_dir_flag() -> (r: Vec<u8>)
    ensures
        r@ == w_out_dir_flag(),
{
    let a: [u8; 9] = [45, 45, 111, 117, 116, 45, 100, 105, 114];
    let r = vstd::slice::slice_to_vec(a.as_slice());
    proof {
        assert(r@ =~= w_out_dir_flag());
    }
    r
}

/// The bytes of `--cfg=`.
pub open spec fn w_cfg_eq() -> Seq<u8> {
    seq![45u8, 45u8, 99u8, 102u8, 103u8, 61u8]
}

/// Build the bytes of `--cfg=`.
pub fn b_cfg_eq() -> (r: Vec<u8>)
    ensures
        r@ == w_cfg_eq(),
{
    let a: [u8; 6] = [45, 45, 99, 102, 103, 61];
    let r = vstd::slice::slice_to_vec(a.as_slice());
    proof {
        assert(r@ =~= w_cfg_eq());
    }
    r
}

/// The bytes of `--edition`.
pub open spec fn w_edition_flag() -> Seq<u8> {
    seq![45u8, 45u8, 101u8, 100u8, 105u8, 116u8, 105u8, 111u8, 110u8]
}

/// Build the bytes of `--edition`.
pub fn b_edition_flag() -> (r: Vec<u8>)
    ensures
        r@ == w_edition_flag(),
{
    let a: [u8; 9] = [45, 45, 101, 100, 105, 116, 105, 111, 110];
    let r = vstd::slice::slice_to_vec(a.as_slice());
    proof {
        assert(r@ =~= w_edition_flag());
    }
    r
}

/// The bytes of `--extern`.
pub open spec fn w_extern_flag() -> Seq<u8> {
    seq![45u8, 45u8, 101u8, 120u8, 116u8, 101u8, 114u8, 110u8]
}

/// Build the bytes of `--extern`.
pub fn b_extern_flag() -> (r: Vec<u8>)
    ensures
        r@ == w_extern_flag(),
{
    let a: [u8; 8] = [45, 45, 101, 120, 116, 101, 114, 110];
    let r = vstd::slice::slice_to_vec(a.as_slice());
    proof {
        assert(r@ =~= w_extern_flag());
    }
    r
}

/// The bytes of `--crate-type`.
pub open spec fn w_crate_type_flag() -> Seq<u8> {
    seq![45u8, 45u8, 99u8, 114u8, 97u8, 116u8, 101u8, 45u8, 116u8, 121u8, 112u8, 101u8]
}

/// Build the bytes of `--crate-type`.
pub fn b_crate_type_flag() -> (r: Vec<u8>)
    ensures
        r@ == w_crate_type_flag(),
{
    let a: [u8; 12] = [45, 45, 99, 114, 97, 116, 101, 45, 116, 121, 112, 101];
    let r = vstd::slice::slice_to_vec(a.as_slice());
    proof {
        assert(r@ =~= w_crate_type_flag());
    }
    r
}

/// The bytes of `--emit=link`.
pub open spec fn w_emit_link() -> Seq<u8> {
    seq![45u8, 45u8, 101u8, 109u8, 105u8, 116u8, 61u8, 108u8, 105u8, 110u8, 107u8]
}

/// Build the bytes of `--emit=link`.
pub fn b_emit_link() -> (r: Vec<u8>)
    ensures
        r@ == w_emit_link(),
{
    let a: [u8; 11] = [45, 45, 101, 109, 105, 116, 61, 108, 105, 110, 107];
    let r = vstd::slice::slice_to_vec(a.as_slice());
    proof {
        assert(r@ =~= w_emit_link());
    }
    r
}

/// The bytes of `-L`.
pub open spec fn w_l_flag() -> Seq<u8> {
    seq![45u8, 76u8]
}

/// Build the bytes of `-L`.
pub fn b_l_flag() -> (r: Vec<u8>)
    ensures
        r@ == w_l_flag(),
{
    let a: [u8; 2] = [45, 76];
    let r = vstd::slice::slice_to_vec(a.as_slice());
    proof {
        assert(r@ =~= w_l_flag());
    }
    r
}

/// The bytes of `=`.
pub open spec fn w_eq_sign() -> Seq<u8> {
    seq![61u8]
}

/// Build the bytes of `=`.
pub fn b_eq_sign() -> (r: Vec<u8>)
    ensures
        r@ == w_eq_sign(),
{
    let a: [u8; 1] = [61];
    let r = vstd::slice::slice_to_vec(a.as_slice());
    proof {
        assert(r@ =~= w_eq_sign());
    }
    r
}

/// The bytes of `lib`.
pub open spec fn w_lib() -> Seq<u8> {
    seq![108u8, 105u8, 98u8]
}

/// Build the bytes of `lib`.
pub fn b_lib() -> (r: Vec<u8>)
    ensures
        r@ == w_lib(),
{
    let a: [u8; 3] = [108, 105, 98];
    let r = vstd::slice::slice_to_vec(a.as_slice());
    proof {
        assert(r@ =~= w_lib());
    }
    r
}

/// The bytes of `--error-format=json`.
pub open spec fn w_error_format_json() -> Seq<u8> {
    seq![45u8, 45u8, 101u8, 114u8, 114u8, 111u8, 114u8, 45u8, 102u8, 111u8, 114u8, 109u8, 97u8, 116u8, 61u8, 106u8, 115u8, 111u8, 110u8]
}

/// Build the bytes of `--error-format=json`.
pub fn b_error_format_json() -> (r: Vec<u8>)
    ensures
        r@ == w_error_format_json(),
{
    let a: [u8; 19] = [45, 45, 101, 114, 114, 111, 114, 45, 102, 111, 114, 109, 97, 116, 61, 106, 115, 111, 110];
    let r = vstd::slice::slice_to_vec(a.as_slice());
    proof {
        assert(r@ =~= w_error_format_json());
    }
    r
}

/// The bytes of `rustc`.
pub open spec fn w_rustc() -> Seq<u8> {
    seq![114u8, 117u8, 115u8, 116u8, 99u8]
}

/// Build the bytes of `rustc`.
pub fn b_rustc() -> (r: Vec<u8>)
    ensures
        r@ == w_rustc(),
{
    let a: [u8; 5] = [114, 117, 115, 116, 99];
    let r = vstd::slice::slice_to_vec(a.as_slice());
    proof {
        assert(r@ =~= w_rustc());
    }
    r
}

/// The bytes of `cargo`.
pub open spec fn w_cargo() -> Seq<u8> {
    seq![99u8, 97u8, 114u8, 103u8, 111u8]
}

/// Build the bytes of `cargo`.
pub fn b_cargo() -> (r: Vec<u8>)
    ensures
        r@ == w_cargo(),
{
    let a: [u8; 5] = [99, 97, 114, 103, 111];
    let r = vstd::slice::slice_to_vec(a.as_slice());
    proof {
        assert(r@ =~= w_cargo());
    }
    r
}

/// The bytes of `build`.
pub open spec fn w_build() -> Seq<u8> {
    seq![98u8, 117u8, 105u8, 108u8, 100u8]
}

/// Build the bytes of `build`.
pub fn b_build() -> (r: Vec<u8>)
    ensures
        r@ == w_build(),
{
    let a: [u8; 5] = [98, 117, 105, 108, 100];
    let r = vstd::slice::slice_to_vec(a.as_slice());
    proof {
        assert(r@ =~= w_build());
    }
    r
}

/// The bytes of `2021`.
pub open spec fn w_ed2021() -> Seq<u8> {
    seq![50u8, 48u8, 50u8, 49u8]
}

/// Build the bytes of `2021`.
pub fn b_ed2021() -> (r: Vec<u8>)
    ensures
        r@ == w_ed2021(),
{
    let a: [u8; 4] = [50, 48, 50, 49];
    let r = vstd::slice::slice_to_vec(a.as_slice());
    proof {
        assert(r@ =~= w_ed2021());
    }
    r
}

/// The bytes of `s390x`.
pub open spec fn w_s390x() -> Seq<u8> {
    seq![115u8, 51u8, 57u8, 48u8, 120u8]
}

/// Build the bytes of `s390x`.
pub fn b_s390x() -> (r: Vec<u8>)
    ensures
        r@ == w_s390x(),
{
    let a: [u8; 5] = [115, 51, 57, 48, 120];
    let r = vstd::slice::slice_to_vec(a.as_slice());
    proof {
        assert(r@ =~= w_s390x());
    }
    r
}

/// The bytes of `avr`.
pub open spec fn w_avr() -> Seq<u8> {
    seq![97u8, 118u8, 114u8]
}

/// Build the bytes of `avr`.
pub fn b_avr() -> (r: Vec<u8>)
    ensures
        r@ == w_avr(),
{
    let a: [u8; 3] = [97, 118, 114];
    let r = vstd::slice::slice_to_vec(a.as_slice());
    proof {
        assert(r@ =~= w_avr());
    }
    r
}

/// The bytes of `64`.
pub open spec fn w_sixty_four() -> Seq<u8> {
    seq![54u8, 52u8]
}

/// Build the bytes of `64`.
pub fn b_sixty_four() -> (r: Vec<u8>)
    ensures
        r@ == w_sixty_four(),
{
    let a: [u8; 2] = [54, 52];
    let r = vstd::slice::slice_to_vec(a.as_slice());
    proof {
        assert(r@ =~= w_sixty_four());
    }
    r
}

/// The bytes of `gnux32`.
pub open spec fn w_gnux32() -> Seq<u8> {
    seq![103u8, 110u8, 117u8, 120u8, 51u8, 50u8]
}

/// Build the bytes of `gnux32`.
pub fn b_gnux32() -> (r: Vec<u8>)
    ensures
        r@ == w_gnux32(),
{
    let a: [u8; 6] = [103, 110, 117, 120, 51, 50];
    let r = vstd::slice::slice_to_vec(a.as_slice());
    proof {
        assert(r@ =~= w_gnux32());
    }
    r
}

/// The bytes of `gnu_ilp32`.
pub open spec fn w_gnu_ilp32() -> Seq<u8> {
    seq![103u8, 110u8, 117u8, 95u8, 105u8, 108u8, 112u8, 51u8, 50u8]
}

/// Build the bytes of `gnu_ilp32`.
pub fn b_gnu_ilp32() -> (r: Vec<u8>)
    ensures
        r@ == w_gnu_ilp32(),
{
    let a: [u8; 9] = [103, 110, 117, 95, 105, 108, 112, 51, 50];
    let r = vstd::slice::slice_to_vec(a.as_slice());
    proof {
        assert(r@ =~= w_gnu_ilp32());
    }
    r
}

/// The bytes of `x86`.
pub open spec fn w_x86() -> Seq<u8> {
    seq![120u8, 56u8, 54u8]
}

/// Build the bytes of `x86`.
pub fn b_x86() -> (r: Vec<u8>)
    ensures
        r@ == w_x86(),
{
    let a: [u8; 3] = [120, 56, 54];
    let r = vstd::slice::slice_to_vec(a.as_slice());
    proof {
        assert(r@ =~= w_x86());
    }
    r
}

/// The bytes of `x86_64`.
pub open spec fn w_x86_64() -> Seq<u8> {
    seq![120u8, 56u8, 54u8, 95u8, 54u8, 52u8]
}

/// Build the bytes of `x86_64`.
pub fn b_x86_64() -> (r: Vec<u8>)
    ensures
        r@ == w_x86_64(),
{
    let a: [u8; 6] = [120, 56, 54, 95, 54, 52];
    let r = vstd::slice::slice_to_vec(a.as_slice());
    proof {
        assert(r@ =~= w_x86_64());
    }
    r
}

/// The bytes of `arm`.
pub open spec fn w_arm() -> Seq<u8> {
    seq![97u8, 114u8, 109u8]
}

/// Build the bytes of `arm`.
pub fn b_arm() -> (r: Vec<u8>)
    ensures
        r@ == w_arm(),
{
    let a: [u8; 3] = [97, 114, 109];
    let r = vstd::slice::slice_to_vec(a.as_slice());
    proof {
        assert(r@ =~= w_arm());
    }
    r
}

/// The bytes of `aarch64`.
pub open spec fn w_aarch64() -> Seq<u8> {
    seq![97u8, 97u8, 114u8, 99u8, 104u8, 54u8, 52u8]
}

/// Build the bytes of `aarch64`.
pub fn b_aarch64() -> (r: Vec<u8>)
    ensures
        r@ == w_aarch64(),
{
    let a: [u8; 7] = [97, 97, 114, 99, 104, 54, 52];
    let r = vstd::slice::slice_to_vec(a.as_slice());
    proof {
        assert(r@ =~= w_aarch64());
    }
    r
}

/// The bytes of `riscv32`.
pub open spec fn w_riscv32() -> Seq<u8> {
    seq![114u8, 105u8, 115u8, 99u8, 118u8, 51u8, 50u8]
}

/// Build the bytes of `riscv32`.
pub fn b_riscv32() -> (r: Vec<u8>)
    ensures
        r@ == w_riscv32(),
{
    let a: [u8; 7] = [114, 105, 115, 99, 118, 51, 50];
    let r = vstd::slice::slice_to_vec(a.as_slice());
    proof {
        assert(r@ =~= w_riscv32());
    }
    r
}

/// The bytes of `riscv64`.
pub open spec fn w_riscv64() -> Seq<u8> {
    seq![114u8, 105u8, 115u8, 99u8, 118u8, 54u8, 52u8]
}

/// Build the bytes of `riscv64`.
pub fn b_riscv64() -> (r: Vec<u8>)
    ensures
        r@ == w_riscv64(),
{
    let a: [u8; 7] = [114, 105, 115, 99, 118, 54, 52];
    let r = vstd::slice::slice_to_vec(a.as_slice());
    proof {
        assert(r@ =~= w_riscv64());
    }
    r
}

/// The bytes of `multiple mode changes found`.
pub open spec fn w_msg_multiple_modes() -> Seq<u8> {
    seq![109u8, 117u8, 108u8, 116u8, 105u8, 112u8, 108u8, 101u8, 32u8, 109u8, 111u8, 100u8, 101u8, 32u8, 99u8, 104u8, 97u8, 110u8, 103u8, 101u8, 115u8, 32u8, 102u8, 111u8, 117u8, 110u8, 100u8]
}

/// Build the bytes of `multiple mode changes found`.
pub fn b_msg_multiple_modes() -> (r: Vec<u8>)
    ensures
        r@ == w_msg_multiple_modes(),
{
    let a: [u8; 27] = [109, 117, 108, 116, 105, 112, 108, 101, 32, 109, 111, 100, 101, 32, 99, 104, 97, 110, 103, 101, 115, 32, 102, 111, 117, 110, 100];
    let r = vstd::slice::slice_to_vec(a.as_slice());
    proof {
        assert(r@ =~= w_msg_multiple_modes());
    }
    r
}

/// The bytes of ``edition` specified twice`.
pub open spec fn w_msg_edition_twice() -> Seq<u8> {
    seq![96u8, 101u8, 100u8, 105u8, 116u8, 105u8, 111u8, 110u8, 96u8, 32u8, 115u8, 112u8, 101u8, 99u8, 105u8, 102u8, 105u8, 101u8, 100u8, 32u8, 116u8, 119u8, 105u8, 99u8, 101u8]
}

/// Build the bytes of ``edition` specified twice`.
pub fn b_msg_edition_twice() -> (r: Vec<u8>)
    ensures
        r@ == w_msg_edition_twice(),
{
    let a: [u8; 25] = [96, 101, 100, 105, 116, 105, 111, 110, 96, 32, 115, 112, 101, 99, 105, 102, 105, 101, 100, 32, 116, 119, 105, 99, 101];
    let r = vstd::slice::slice_to_vec(a.as_slice());
    proof {
        assert(r@ =~= w_msg_edition_twice());
    }
    r
}

/// The bytes of ``require_annotations_for_level` specified twice for same revision`.
pub open spec fn w_msg_require_level_twice() -> Seq<u8> {
    seq![96u8, 114u8, 101u8, 113u8, 117u8, 105u8, 114u8, 101u8, 95u8, 97u8, 110u8, 110u8, 111u8, 116u8, 97u8, 116u8, 105u8, 111u8, 110u8, 115u8, 95u8, 102u8, 111u8, 114u8, 95u8, 108u8, 101u8, 118u8, 101u8, 108u8, 96u8, 32u8, 115u8, 112u8, 101u8, 99u8, 105u8, 102u8, 105u8, 101u8, 100u8, 32u8, 116u8, 119u8, 105u8, 99u8, 101u8, 32u8, 102u8, 111u8, 114u8, 32u8, 115u8, 97u8, 109u8, 101u8, 32u8, 114u8, 101u8, 118u8, 105u8, 115u8, 105u8, 111u8, 110u8]
}

/// Build the bytes of ``require_annotations_for_level` specified twice for same revision`.
pub fn b_msg_require_level_twice() -> (r: Vec<u8>)
    ensures
        r@ == w_msg_require_level_twice(),
{
    let a: [u8; 65] = [96, 114, 101, 113, 117, 105, 114, 101, 95, 97, 110, 110, 111, 116, 97, 116, 105, 111, 110, 115, 95, 102, 111, 114, 95, 108, 101, 118, 101, 108, 96, 32, 115, 112, 101, 99, 105, 102, 105, 101, 100, 32, 116, 119, 105, 99, 101, 32, 102, 111, 114, 32, 115, 97, 109, 101, 32, 114, 101, 118, 105, 115, 105, 111, 110];
    let r = vstd::slice::slice_to_vec(a.as_slice());
    proof {
        assert(r@ =~= w_msg_require_level_twice());
    }
    r
}

/// The bytes of `cannot specify `revisions` twice`.
pub open spec fn w_msg_revisions_twice() -> Seq<u8> {
    seq![99u8, 97u8, 110u8, 110u8, 111u8, 116u8, 32u8, 115u8, 112u8, 101u8, 99u8, 105u8, 102u8, 121u8, 32u8, 96u8, 114u8, 101u8, 118u8, 105u8, 115u8, 105u8, 111u8, 110u8, 115u8, 96u8, 32u8, 116u8, 119u8, 105u8, 99u8, 101u8]
}

/// Build the bytes of `cannot specify `revisions` twice`.
pub fn b_msg_revisions_twice() -> (r: Vec<u8>)
    ensures
        r@ == w_msg_revisions_twice(),
{
    let a: [u8; 32] = [99, 97, 110, 110, 111, 116, 32, 115, 112, 101, 99, 105, 102, 121, 32, 96, 114, 101, 118, 105, 115, 105, 111, 110, 115, 96, 32, 116, 119, 105, 99, 101];
    let r = vstd::slice::slice_to_vec(a.as_slice());
    proof {
        assert(r@ =~= w_msg_revisions_twice());
    }
    r
}

/// The bytes of `missing command after `//@``.
pub open spec fn w_msg_empty_directive() -> Seq<u8> {
    seq![109u8, 105u8, 115u8, 115u8, 105u8, 110u8, 103u8, 32u8, 99u8, 111u8, 109u8, 109u8, 97u8, 110u8, 100u8, 32u8, 97u8, 102u8, 116u8, 101u8, 114u8, 32u8, 96u8, 47u8, 47u8, 64u8, 96u8]
}

/// Build the bytes of `missing command after `//@``.
pub fn b_msg_empty_directive() -> (r: Vec<u8>)
    ensures
        r@ == w_msg_empty_directive(),
{
    let a: [u8; 27] = [109, 105, 115, 115, 105, 110, 103, 32, 99, 111, 109, 109, 97, 110, 100, 32, 97, 102, 116, 101, 114, 32, 96, 47, 47, 64, 96];
    let r = vstd::slice::slice_to_vec(a.as_slice());
    proof {
        assert(r@ =~= w_msg_empty_directive());
    }
    r
}

/// The bytes of `unknown level`.
pub open spec fn w_msg_bad_level() -> Seq<u8> {
    seq![117u8, 110u8, 107u8, 110u8, 111u8, 119u8, 110u8, 32u8, 108u8, 101u8, 118u8, 101u8, 108u8]
}

/// Build the bytes of `unknown level`.
pub fn b_msg_bad_level() -> (r: Vec<u8>)
    ensures
        r@ == w_msg_bad_level(),
{
    let a: [u8; 13] = [117, 110, 107, 110, 111, 119, 110, 32, 108, 101, 118, 101, 108];
    let r = vstd::slice::slice_to_vec(a.as_slice());
    proof {
        assert(r@ =~= w_msg_bad_level());
    }
    r
}

/// The bytes of `no pattern found in inline comment`.
pub open spec fn w_msg_missing_pattern() -> Seq<u8> {
    seq![110u8, 111u8, 32u8, 112u8, 97u8, 116u8, 116u8, 101u8, 114u8, 110u8, 32u8, 102u8, 111u8, 117u8, 110u8, 100u8, 32u8, 105u8, 110u8, 32u8, 105u8, 110u8, 108u8, 105u8, 110u8, 101u8, 32u8, 99u8, 111u8, 109u8, 109u8, 101u8, 110u8, 116u8]
}

/// Build the bytes of `no pattern found in inline comment`.
pub fn b_msg_missing_pattern() -> (r: Vec<u8>)
    ensures
        r@ == w_msg_missing_pattern(),
{
    let a: [u8; 34] = [110, 111, 32, 112, 97, 116, 116, 101, 114, 110, 32, 102, 111, 117, 110, 100, 32, 105, 110, 32, 105, 110, 108, 105, 110, 101, 32, 99, 111, 109, 109, 101, 110, 116];
    let r = vstd::slice::slice_to_vec(a.as_slice());
    proof {
        assert(r@ =~= w_msg_missing_pattern());
    }
    r
}

/// The bytes of `environment variable must be of the shape `NAME=value``.
pub open spec fn w_msg_bad_env() -> Seq<u8> {
    seq![101u8, 110u8, 118u8, 105u8, 114u8, 111u8, 110u8, 109u8, 101u8, 110u8, 116u8, 32u8, 118u8, 97u8, 114u8, 105u8, 97u8, 98u8, 108u8, 101u8, 32u8, 109u8, 117u8, 115u8, 116u8, 32u8, 98u8, 101u8, 32u8, 111u8, 102u8, 32u8, 116u8, 104u8, 101u8, 32u8, 115u8, 104u8, 97u8, 112u8, 101u8, 32u8, 96u8, 78u8, 65u8, 77u8, 69u8, 61u8, 118u8, 97u8, 108u8, 117u8, 101u8, 96u8]
}

/// Build the bytes of `environment variable must be of the shape `NAME=value``.
pub fn b_msg_bad_env() -> (r: Vec<u8>)
    ensures
        r@ == w_msg_bad_env(),
{
    let a: [u8; 54] = [101, 110, 118, 105, 114, 111, 110, 109, 101, 110, 116, 32, 118, 97, 114, 105, 97, 98, 108, 101, 32, 109, 117, 115, 116, 32, 98, 101, 32, 111, 102, 32, 116, 104, 101, 32, 115, 104, 97, 112, 101, 32, 96, 78, 65, 77, 69, 61, 118, 97, 108, 117, 101, 96];
    let r = vstd::slice::slice_to_vec(a.as_slice());
    proof {
        assert(r@ =~= w_msg_bad_env());
    }
    r
}

/// The bytes of `normalize-stderr-test needs a `"<from>" -> "<to>"` argument`.
pub open spec fn w_msg_bad_normalize() -> Seq<u8> {
    seq![110u8, 111u8, 114u8, 109u8, 97u8, 108u8, 105u8, 122u8, 101u8, 45u8, 115u8, 116u8, 100u8, 101u8, 114u8, 114u8, 45u8, 116u8, 101u8, 115u8, 116u8, 32u8, 110u8, 101u8, 101u8, 100u8, 115u8, 32u8, 97u8, 32u8, 96u8, 34u8, 60u8, 102u8, 114u8, 111u8, 109u8, 62u8, 34u8, 32u8, 45u8, 62u8, 32u8, 34u8, 60u8, 116u8, 111u8, 62u8, 34u8, 96u8, 32u8, 97u8, 114u8, 103u8, 117u8, 109u8, 101u8, 110u8, 116u8]
}

/// Build the bytes of `normalize-stderr-test needs a `"<from>" -> "<to>"` argument`.
pub fn b_msg_bad_normalize() -> (r: Vec<u8>)
    ensures
        r@ == w_msg_bad_normalize(),
{
    let a: [u8; 59] = [110, 111, 114, 109, 97, 108, 105, 122, 101, 45, 115, 116, 100, 101, 114, 114, 45, 116, 101, 115, 116, 32, 110, 101, 101, 100, 115, 32, 97, 32, 96, 34, 60, 102, 114, 111, 109, 62, 34, 32, 45, 62, 32, 34, 60, 116, 111, 62, 34, 96, 32, 97, 114, 103, 117, 109, 101, 110, 116];
    let r = vstd::slice::slice_to_vec(a.as_slice());
    proof {
        assert(r@ =~= w_msg_bad_normalize());
    }
    r
}

/// The bytes of `invalid regex`.
pub open spec fn w_msg_bad_regex() -> Seq<u8> {
    seq![105u8, 110u8, 118u8, 97u8, 108u8, 105u8, 100u8, 32u8, 114u8, 101u8, 103u8, 101u8, 120u8]
}

/// Build the bytes of `invalid regex`.
pub fn b_msg_bad_regex() -> (r: Vec<u8>)
    ensures
        r@ == w_msg_bad_regex(),
{
    let a: [u8; 13] = [105, 110, 118, 97, 108, 105, 100, 32, 114, 101, 103, 101, 120];
    let r = vstd::slice::slice_to_vec(a.as_slice());
    proof {
        assert(r@ =~= w_msg_bad_regex());
    }
    r
}

/// The bytes of `unknown directive`.
pub open spec fn w_msg_unknown_directive() -> Seq<u8> {
    seq![117u8, 110u8, 107u8, 110u8, 111u8, 119u8, 110u8, 32u8, 100u8, 105u8, 114u8, 101u8, 99u8, 116u8, 105u8, 118u8, 101u8]
}

/// Build the bytes of `unknown directive`.
pub fn b_msg_unknown_directive() -> (r: Vec<u8>)
    ensures
        r@ == w_msg_unknown_directive(),
{
    let a: [u8; 17] = [117, 110, 107, 110, 111, 119, 110, 32, 100, 105, 114, 101, 99, 116, 105, 118, 101];
    let r = vstd::slice::slice_to_vec(a.as_slice());
    proof {
        assert(r@ =~= w_msg_unknown_directive());
    }
    r
}

/// The bytes of `missing `]` after revision name`.
pub open spec fn w_msg_unclosed_revision() -> Seq<u8> {
    seq![109u8, 105u8, 115u8, 115u8, 105u8, 110u8, 103u8, 32u8, 96u8, 93u8, 96u8, 32u8, 97u8, 102u8, 116u8, 101u8, 114u8, 32u8, 114u8, 101u8, 118u8, 105u8, 115u8, 105u8, 111u8, 110u8, 32u8, 110u8, 97u8, 109u8, 101u8]
}

/// Build the bytes of `missing `]` after revision name`.
pub fn b_msg_unclosed_revision() -> (r: Vec<u8>)
    ensures
        r@ == w_msg_unclosed_revision(),
{
    let a: [u8; 31] = [109, 105, 115, 115, 105, 110, 103, 32, 96, 93, 96, 32, 97, 102, 116, 101, 114, 32, 114, 101, 118, 105, 115, 105, 111, 110, 32, 110, 97, 109, 101];
    let r = vstd::slice::slice_to_vec(a.as_slice());
    proof {
        assert(r@ =~= w_msg_unclosed_revision());
    }
    r
}

/// The bytes of `relative line number is out of range`.
pub open spec fn w_msg_anchor_out_of_range() -> Seq<u8> {
    seq![114u8, 101u8, 108u8, 97u8, 116u8, 105u8, 118u8, 101u8, 32u8, 108u8, 105u8, 110u8, 101u8, 32u8, 110u8, 117u8, 109u8, 98u8, 101u8, 114u8, 32u8, 105u8, 115u8, 32u8, 111u8, 117u8, 116u8, 32u8, 111u8, 102u8, 32u8, 114u8, 97u8, 110u8, 103u8, 101u8]
}

/// Build the bytes of `relative line number is out of range`.
pub fn b_msg_anchor_out_of_range() -> (r: Vec<u8>)
    ensures
        r@ == w_msg_anchor_out_of_range(),
{
    let a: [u8; 36] = [114, 101, 108, 97, 116, 105, 118, 101, 32, 108, 105, 110, 101, 32, 110, 117, 109, 98, 101, 114, 32, 105, 115, 32, 111, 117, 116, 32, 111, 102, 32, 114, 97, 110, 103, 101];
    let r = vstd::slice::slice_to_vec(a.as_slice());
    proof {
        assert(r@ =~= w_msg_anchor_out_of_range());
    }
    r
}

/// The bytes of `no previous annotation to anchor to`.
pub open spec fn w_msg_no_previous_anchor() -> Seq<u8> {
    seq![110u8, 111u8, 32u8, 112u8, 114u8, 101u8, 118u8, 105u8, 111u8, 117u8, 115u8, 32u8, 97u8, 110u8, 110u8, 111u8, 116u8, 97u8, 116u8, 105u8, 111u8, 110u8, 32u8, 116u8, 111u8, 32u8, 97u8, 110u8, 99u8, 104u8, 111u8, 114u8, 32u8, 116u8, 111u8]
}

/// Build the bytes of `no previous annotation to anchor to`.
pub fn b_msg_no_previous_anchor() -> (r: Vec<u8>)
    ensures
        r@ == w_msg_no_previous_anchor(),
{
    let a: [u8; 35] = [110, 111, 32, 112, 114, 101, 118, 105, 111, 117, 115, 32, 97, 110, 110, 111, 116, 97, 116, 105, 111, 110, 32, 116, 111, 32, 97, 110, 99, 104, 111, 114, 32, 116, 111];
    let r = vstd::slice::slice_to_vec(a.as_slice());
    proof {
        assert(r@ =~= w_msg_no_previous_anchor());
    }
    r
}

/// The bytes of `aux-build needs a file name`.
pub open spec fn w_msg_aux_missing_name() -> Seq<u8> {
    seq![97u8, 117u8, 120u8, 45u8, 98u8, 117u8, 105u8, 108u8, 100u8, 32u8, 110u8, 101u8, 101u8, 100u8, 115u8, 32u8, 97u8, 32u8, 102u8, 105u8, 108u8, 101u8, 32u8, 110u8, 97u8, 109u8, 101u8]
}

/// Build the bytes of `aux-build needs a file name`.
pub fn b_msg_aux_missing_name() -> (r: Vec<u8>)
    ensures
        r@ == w_msg_aux_missing_name(),
{
    let a: [u8; 27] = [97, 117, 120, 45, 98, 117, 105, 108, 100, 32, 110, 101, 101, 100, 115, 32, 97, 32, 102, 105, 108, 101, 32, 110, 97, 109, 101];
    let r = vstd::slice::slice_to_vec(a.as_slice());
    proof {
        assert(r@ =~= w_msg_aux_missing_name());
    }
    r
}

/// The bytes of `the fix library could not apply the suggestions`.
pub open spec fn w_msg_fix_failed() -> Seq<u8> {
    seq![116u8, 104u8, 101u8, 32u8, 102u8, 105u8, 120u8, 32u8, 108u8, 105u8, 98u8, 114u8, 97u8, 114u8, 121u8, 32u8, 99u8, 111u8, 117u8, 108u8, 100u8, 32u8, 110u8, 111u8, 116u8, 32u8, 97u8, 112u8, 112u8, 108u8, 121u8, 32u8, 116u8, 104u8, 101u8, 32u8, 115u8, 117u8, 103u8, 103u8, 101u8, 115u8, 116u8, 105u8, 111u8, 110u8, 115u8]
}

/// Build the bytes of `the fix library could not apply the suggestions`.
pub fn b_msg_fix_failed() -> (r: Vec<u8>)
    ensures
        r@ == w_msg_fix_failed(),
{
    let a: [u8; 47] = [116, 104, 101, 32, 102, 105, 120, 32, 108, 105, 98, 114, 97, 114, 121, 32, 99, 111, 117, 108, 100, 32, 110, 111, 116, 32, 97, 112, 112, 108, 121, 32, 116, 104, 101, 32, 115, 117, 103, 103, 101, 115, 116, 105, 111, 110, 115];
    let r = vstd::slice::slice_to_vec(a.as_slice());
    proof {
        assert(r@ =~= w_msg_fix_failed());
    }
    r
}

} // verus!
