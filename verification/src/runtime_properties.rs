//! The properties that webpack's runtime assigns to its require function.

use vstd::prelude::*;

use crate::text::text_eq;

verus! {

/// `name` is a property under which webpack keeps a part of its runtime on
/// the require function, besides the chunk filename functions.
///
/// The names are those that webpack 5 gives to its runtime globals:
/// - modules: `m` (factories), `c` (cache), `s` (entry module), `i`
///   (interception), `d`, `r`, `t`, `n`, `o` (export helpers), `hmd`, `nmd`
///   (module decorators), `a`, `aE`, `z` (async and deferred modules), `y`
///   (system context), `amdD`, `amdO` (AMD);
/// - chunks: `e`, `f` (loading), `E`, `F` (prefetching), `G`, `H`
///   (preloading), `k` (CSS file names), `l` (script loading), `ts`, `tu`,
///   `tt` (trusted types), `nc` (nonce), `cn` (chunk name), `C` (external
///   chunks), `O` (chunks loaded), `x`, `X` (startup), `oe` (load errors);
/// - places: `p` (public path), `b` (base URI), `U` (relative URLs), `g`
///   (global object), `h` (compilation hash), `j` (runtime id);
/// - WebAssembly: `v`, `w`;
/// - sharing: `S`, `I`, `R`;
/// - hot updates: `hu`, `hk`, `hmrF`, `hmrM`, `hmrC`, `hmrD`, `hmrI`, `hmrS`.
pub open spec fn is_runtime_property(name: Seq<char>) -> bool {
    ||| name == "p"@
    ||| name == "s"@
    ||| name == "c"@
    ||| name == "m"@
    ||| name == "e"@
    ||| name == "f"@
    ||| name == "E"@
    ||| name == "F"@
    ||| name == "G"@
    ||| name == "H"@
    ||| name == "d"@
    ||| name == "r"@
    ||| name == "t"@
    ||| name == "n"@
    ||| name == "hmd"@
    ||| name == "nmd"@
    ||| name == "h"@
    ||| name == "w"@
    ||| name == "v"@
    ||| name == "oe"@
    ||| name == "nc"@
    ||| name == "l"@
    ||| name == "ts"@
    ||| name == "tu"@
    ||| name == "tt"@
    ||| name == "cn"@
    ||| name == "j"@
    ||| name == "k"@
    ||| name == "hu"@
    ||| name == "hk"@
    ||| name == "x"@
    ||| name == "X"@
    ||| name == "O"@
    ||| name == "C"@
    ||| name == "i"@
    ||| name == "g"@
    ||| name == "S"@
    ||| name == "I"@
    ||| name == "R"@
    ||| name == "hmrF"@
    ||| name == "hmrM"@
    ||| name == "hmrC"@
    ||| name == "hmrD"@
    ||| name == "hmrI"@
    ||| name == "hmrS"@
    ||| name == "amdD"@
    ||| name == "amdO"@
    ||| name == "o"@
    ||| name == "y"@
    ||| name == "b"@
    ||| name == "U"@
    ||| name == "a"@
    ||| name == "aE"@
    ||| name == "z"@
}

/// Whether `name` is a property under which webpack keeps a part of its
/// runtime on the require function.
pub fn is_webpack_runtime_property(name: &str) -> (r: bool)
    ensures
        r == is_runtime_property(name@),
{
    text_eq(name, "p")
        || text_eq(name, "s")
        || text_eq(name, "c")
        || text_eq(name, "m")
        || text_eq(name, "e")
        || text_eq(name, "f")
        || text_eq(name, "E")
        || text_eq(name, "F")
        || text_eq(name, "G")
        || text_eq(name, "H")
        || text_eq(name, "d")
        || text_eq(name, "r")
        || text_eq(name, "t")
        || text_eq(name, "n")
        || text_eq(name, "hmd")
        || text_eq(name, "nmd")
        || text_eq(name, "h")
        || text_eq(name, "w")
        || text_eq(name, "v")
        || text_eq(name, "oe")
        || text_eq(name, "nc")
        || text_eq(name, "l")
        || text_eq(name, "ts")
        || text_eq(name, "tu")
        || text_eq(name, "tt")
        || text_eq(name, "cn")
        || text_eq(name, "j")
        || text_eq(name, "k")
        || text_eq(name, "hu")
        || text_eq(name, "hk")
        || text_eq(name, "x")
        || text_eq(name, "X")
        || text_eq(name, "O")
        || text_eq(name, "C")
        || text_eq(name, "i")
        || text_eq(name, "g")
        || text_eq(name, "S")
        || text_eq(name, "I")
        || text_eq(name, "R")
        || text_eq(name, "hmrF")
        || text_eq(name, "hmrM")
        || text_eq(name, "hmrC")
        || text_eq(name, "hmrD")
        || text_eq(name, "hmrI")
        || text_eq(name, "hmrS")
        || text_eq(name, "amdD")
        || text_eq(name, "amdO")
        || text_eq(name, "o")
        || text_eq(name, "y")
        || text_eq(name, "b")
        || text_eq(name, "U")
        || text_eq(name, "a")
        || text_eq(name, "aE")
        || text_eq(name, "z")
}

/// The names of the runtime globals: of modules, chunks, places, WebAssembly,
/// sharing and hot updates.
pub open spec fn runtime_global_names() -> Seq<Seq<char>> {
    seq![
        "m"@,
        "c"@,
        "s"@,
        "i"@,
        "d"@,
        "r"@,
        "t"@,
        "n"@,
        "o"@,
        "hmd"@,
        "nmd"@,
        "a"@,
        "aE"@,
        "z"@,
        "y"@,
        "amdD"@,
        "amdO"@,
        "e"@,
        "f"@,
        "E"@,
        "F"@,
        "G"@,
        "H"@,
        "k"@,
        "l"@,
        "ts"@,
        "tu"@,
        "tt"@,
        "nc"@,
        "cn"@,
        "C"@,
        "O"@,
        "x"@,
        "X"@,
        "oe"@,
        "p"@,
        "b"@,
        "U"@,
        "g"@,
        "h"@,
        "j"@,
        "v"@,
        "w"@,
        "S"@,
        "I"@,
        "R"@,
        "hu"@,
        "hk"@,
        "hmrF"@,
        "hmrM"@,
        "hmrC"@,
        "hmrD"@,
        "hmrI"@,
        "hmrS"@,
    ]
}

/// The properties of the runtime are its globals, and nothing else.
pub proof fn law_runtime_properties(name: Seq<char>)
    ensures
        is_runtime_property(name) <==> runtime_global_names().contains(name),
{
    let names = runtime_global_names();
    assert(names[0] == "m"@);
    assert(names[1] == "c"@);
    assert(names[2] == "s"@);
    assert(names[3] == "i"@);
    assert(names[4] == "d"@);
    assert(names[5] == "r"@);
    assert(names[6] == "t"@);
    assert(names[7] == "n"@);
    assert(names[8] == "o"@);
    assert(names[9] == "hmd"@);
    assert(names[10] == "nmd"@);
    assert(names[11] == "a"@);
    assert(names[12] == "aE"@);
    assert(names[13] == "z"@);
    assert(names[14] == "y"@);
    assert(names[15] == "amdD"@);
    assert(names[16] == "amdO"@);
    assert(names[17] == "e"@);
    assert(names[18] == "f"@);
    assert(names[19] == "E"@);
    assert(names[20] == "F"@);
    assert(names[21] == "G"@);
    assert(names[22] == "H"@);
    assert(names[23] == "k"@);
    assert(names[24] == "l"@);
    assert(names[25] == "ts"@);
    assert(names[26] == "tu"@);
    assert(names[27] == "tt"@);
    assert(names[28] == "nc"@);
    assert(names[29] == "cn"@);
    assert(names[30] == "C"@);
    assert(names[31] == "O"@);
    assert(names[32] == "x"@);
    assert(names[33] == "X"@);
    assert(names[34] == "oe"@);
    assert(names[35] == "p"@);
    assert(names[36] == "b"@);
    assert(names[37] == "U"@);
    assert(names[38] == "g"@);
    assert(names[39] == "h"@);
    assert(names[40] == "j"@);
    assert(names[41] == "v"@);
    assert(names[42] == "w"@);
    assert(names[43] == "S"@);
    assert(names[44] == "I"@);
    assert(names[45] == "R"@);
    assert(names[46] == "hu"@);
    assert(names[47] == "hk"@);
    assert(names[48] == "hmrF"@);
    assert(names[49] == "hmrM"@);
    assert(names[50] == "hmrC"@);
    assert(names[51] == "hmrD"@);
    assert(names[52] == "hmrI"@);
    assert(names[53] == "hmrS"@);
    if names.contains(name) {
        let k = choose|k: int| 0 <= k < names.len() && names[k] == name;
        assert(0 <= k < 54);
    }
}

} // verus!
