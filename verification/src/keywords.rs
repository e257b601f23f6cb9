//! The literal byte strings of the wire format, shared by the parser and
//! the emitters. Each constant holds the ASCII bytes of the token its
//! comment names.

use vstd::prelude::*;

verus! {

/// `blob`
pub const KW_BLOB: [u8; 4] = [98, 108, 111, 98];

/// `commit `
pub const KW_COMMIT_SP: [u8; 7] = [99, 111, 109, 109, 105, 116, 32];

/// `tag `
pub const KW_TAG_SP: [u8; 4] = [116, 97, 103, 32];

/// `reset `
pub const KW_RESET_SP: [u8; 6] = [114, 101, 115, 101, 116, 32];

/// `ls `
pub const KW_LS_SP: [u8; 3] = [108, 115, 32];

/// `cat-blob `
pub const KW_CAT_BLOB_SP: [u8; 9] = [99, 97, 116, 45, 98, 108, 111, 98, 32];

/// `get-mark `
pub const KW_GET_MARK_SP: [u8; 9] = [103, 101, 116, 45, 109, 97, 114, 107, 32];

/// `checkpoint`
pub const KW_CHECKPOINT: [u8; 10] = [99, 104, 101, 99, 107, 112, 111, 105, 110, 116];

/// `done`
pub const KW_DONE: [u8; 4] = [100, 111, 110, 101];

/// `alias`
pub const KW_ALIAS: [u8; 5] = [97, 108, 105, 97, 115];

/// `progress `
pub const KW_PROGRESS_SP: [u8; 9] = [112, 114, 111, 103, 114, 101, 115, 115, 32];

/// `feature `
pub const KW_FEATURE_SP: [u8; 8] = [102, 101, 97, 116, 117, 114, 101, 32];

/// `option `
pub const KW_OPTION_SP: [u8; 7] = [111, 112, 116, 105, 111, 110, 32];

/// `mark `
pub const KW_MARK_SP: [u8; 5] = [109, 97, 114, 107, 32];

/// `original-oid `
pub const KW_ORIGINAL_OID_SP: [u8; 13] = [111, 114, 105, 103, 105, 110, 97, 108, 45, 111, 105, 100, 32];

/// `data `
pub const KW_DATA_SP: [u8; 5] = [100, 97, 116, 97, 32];

/// `author `
pub const KW_AUTHOR_SP: [u8; 7] = [97, 117, 116, 104, 111, 114, 32];

/// `committer `
pub const KW_COMMITTER_SP: [u8; 10] = [99, 111, 109, 109, 105, 116, 116, 101, 114, 32];

/// `encoding `
pub const KW_ENCODING_SP: [u8; 9] = [101, 110, 99, 111, 100, 105, 110, 103, 32];

/// `from `
pub const KW_FROM_SP: [u8; 5] = [102, 114, 111, 109, 32];

/// `merge `
pub const KW_MERGE_SP: [u8; 6] = [109, 101, 114, 103, 101, 32];

/// `to `
pub const KW_TO_SP: [u8; 3] = [116, 111, 32];

/// `tagger `
pub const KW_TAGGER_SP: [u8; 7] = [116, 97, 103, 103, 101, 114, 32];

/// `<<`
pub const KW_LTLT: [u8; 2] = [60, 60];

/// `git `
pub const KW_GIT_SP: [u8; 4] = [103, 105, 116, 32];

/// `date-format=`
pub const KW_DATE_FORMAT_EQ: [u8; 12] = [100, 97, 116, 101, 45, 102, 111, 114, 109, 97, 116, 61];

/// `import-marks=`
pub const KW_IMPORT_MARKS_EQ: [u8; 13] = [105, 109, 112, 111, 114, 116, 45, 109, 97, 114, 107, 115, 61];

/// `import-marks-if-exists=`
pub const KW_IMPORT_MARKS_IF_EXISTS_EQ: [u8; 23] = [105, 109, 112, 111, 114, 116, 45, 109, 97, 114, 107, 115, 45, 105, 102, 45, 101, 120, 105, 115, 116, 115, 61];

/// `export-marks=`
pub const KW_EXPORT_MARKS_EQ: [u8; 13] = [101, 120, 112, 111, 114, 116, 45, 109, 97, 114, 107, 115, 61];

/// `rewrite-submodules-to=`
pub const KW_REWRITE_SUBMODULES_TO_EQ: [u8; 22] = [114, 101, 119, 114, 105, 116, 101, 45, 115, 117, 98, 109, 111, 100, 117, 108, 101, 115, 45, 116, 111, 61];

/// `rewrite-submodules-from=`
pub const KW_REWRITE_SUBMODULES_FROM_EQ: [u8; 24] = [114, 101, 119, 114, 105, 116, 101, 45, 115, 117, 98, 109, 111, 100, 117, 108, 101, 115, 45, 102, 114, 111, 109, 61];

/// `get-mark`
pub const KW_GET_MARK: [u8; 8] = [103, 101, 116, 45, 109, 97, 114, 107];

/// `cat-blob`
pub const KW_CAT_BLOB: [u8; 8] = [99, 97, 116, 45, 98, 108, 111, 98];

/// `relative-marks`
pub const KW_RELATIVE_MARKS: [u8; 14] = [114, 101, 108, 97, 116, 105, 118, 101, 45, 109, 97, 114, 107, 115];

/// `no-relative-marks`
pub const KW_NO_RELATIVE_MARKS: [u8; 17] = [110, 111, 45, 114, 101, 108, 97, 116, 105, 118, 101, 45, 109, 97, 114, 107, 115];

/// `force`
pub const KW_FORCE: [u8; 5] = [102, 111, 114, 99, 101];

/// `notes`
pub const KW_NOTES: [u8; 5] = [110, 111, 116, 101, 115];

/// `ls`
pub const KW_LS: [u8; 2] = [108, 115];

/// `raw`
pub const KW_RAW: [u8; 3] = [114, 97, 119];

/// `raw-permissive`
pub const KW_RAW_PERMISSIVE: [u8; 14] = [114, 97, 119, 45, 112, 101, 114, 109, 105, 115, 115, 105, 118, 101];

/// `rfc2822`
pub const KW_RFC2822: [u8; 7] = [114, 102, 99, 50, 56, 50, 50];

/// `now`
pub const KW_NOW: [u8; 3] = [110, 111, 119];

/// `max-pack-size=`
pub const KW_MAX_PACK_SIZE_EQ: [u8; 14] = [109, 97, 120, 45, 112, 97, 99, 107, 45, 115, 105, 122, 101, 61];

/// `big-file-threshold=`
pub const KW_BIG_FILE_THRESHOLD_EQ: [u8; 19] = [98, 105, 103, 45, 102, 105, 108, 101, 45, 116, 104, 114, 101, 115, 104, 111, 108, 100, 61];

/// `depth=`
pub const KW_DEPTH_EQ: [u8; 6] = [100, 101, 112, 116, 104, 61];

/// `active-branches=`
pub const KW_ACTIVE_BRANCHES_EQ: [u8; 16] = [97, 99, 116, 105, 118, 101, 45, 98, 114, 97, 110, 99, 104, 101, 115, 61];

/// `export-pack-edges=`
pub const KW_EXPORT_PACK_EDGES_EQ: [u8; 18] = [101, 120, 112, 111, 114, 116, 45, 112, 97, 99, 107, 45, 101, 100, 103, 101, 115, 61];

/// `quiet`
pub const KW_QUIET: [u8; 5] = [113, 117, 105, 101, 116];

/// `stats`
pub const KW_STATS: [u8; 5] = [115, 116, 97, 116, 115];

/// `allow-unsafe-features`
pub const KW_ALLOW_UNSAFE_FEATURES: [u8; 21] = [97, 108, 108, 111, 119, 45, 117, 110, 115, 97, 102, 101, 45, 102, 101, 97, 116, 117, 114, 101, 115];

/// `M `
pub const KW_M_SP: [u8; 2] = [77, 32];

/// `D `
pub const KW_D_SP: [u8; 2] = [68, 32];

/// `R `
pub const KW_R_SP: [u8; 2] = [82, 32];

/// `C `
pub const KW_C_SP: [u8; 2] = [67, 32];

/// `deleteall`
pub const KW_DELETEALL: [u8; 9] = [100, 101, 108, 101, 116, 101, 97, 108, 108];

/// `N `
pub const KW_N_SP: [u8; 2] = [78, 32];

/// `inline`
pub const KW_INLINE: [u8; 6] = [105, 110, 108, 105, 110, 101];

/// `option git `
pub const KW_OPTION_GIT_SP: [u8; 11] = [111, 112, 116, 105, 111, 110, 32, 103, 105, 116, 32];

/// `mark :`
pub const KW_MARK_COLON: [u8; 6] = [109, 97, 114, 107, 32, 58];

/// `data <<`
pub const KW_DATA_LTLT: [u8; 7] = [100, 97, 116, 97, 32, 60, 60];

/// `blob\n`
pub const KW_BLOB_LF: [u8; 5] = [98, 108, 111, 98, 10];

} // verus!