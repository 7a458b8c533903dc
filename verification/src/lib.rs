//! BMS / bmson chart-format library.

pub mod text;
pub mod index;
pub mod channel;
pub mod error;
pub mod message;
pub mod preprocess;
pub mod value;
pub mod params;
pub mod header;
pub mod tokenizer;
pub mod id;
pub mod encoding;
pub mod bmson;
pub mod processor;
pub mod json;
pub mod de;

pub use channel::{classify_channel, BmsChannel};
pub use error::{BmsTokenizeError, BmsTryFromError, IntoTokensError, ParseBmsValueError};
pub use header::control_flow::BmsHeaderControlFlow;
pub use header::display::BmsHeaderDisplay;
pub use header::gameplay::BmsHeaderGameplay;
pub use header::metadata::BmsHeaderMetadata;
pub use header::res_def_audio::BmsHeaderResDefAudio;
pub use header::res_def_visual::BmsHeaderResDefVisual;
pub use header::timing::BmsHeaderTiming;
pub use header::{parse_header_line, BmsHeader, BmsHeaderFallback};
pub use index::{
    base36_digit_value, is_base62, BmpIndex, BmsBase, BmsIndex, BmsIndexError, BpmIndex, ChangeOptionIndex,
    ChannelIndex, ExRankIndex, LnObjIndex, ObjectIndex, ScrollIndex, SeekIndex, SpeedIndex, StopIndex,
    TextIndex, WavIndex,
};
pub use message::{parse_message_line, BmsMessage};
pub use params::{
    ArgbParams, AtBgaParams, BgaParams, BmsValue, ExBmpParams, ExWavParams, StpParams, SwBgaParams,
    WavCmdKind, WavCmdParams,
};
pub use preprocess::preprocess;
pub use tokenizer::{BmsToken, BmsTokenizer, ErrorStrategy};
pub use value::{DifficultyLevel, LnMode, LnType, ParseDifficultyError, PlayerMode, PoorBgaMode, Rank};
