//! Protocol routing and streaming dispatch for a peer-to-peer RPC layer.
//!
//! An inbound substream arrives with a negotiated protocol identifier; the
//! router resolves that identifier to the service registered for it, the
//! dispatch state machine drives one request/response exchange over the
//! substream, and the response body is streamed back as framed chunks.

pub mod body;
pub mod config;
pub mod consensus;
pub mod dispatch;
pub mod fixed_array;
pub mod message;
pub mod protocol;
pub mod router;
pub mod varint;
pub mod wallet;
pub mod wire;

pub use body::Body;
pub use config::BaseNodeServiceConfig;
pub use consensus::ConsensusDecoding;
pub use consensus::ConsensusEncoding;
pub use consensus::ConsensusEncodingSized;
pub use consensus::MaxSizeBytes;
pub use dispatch::SubstreamAction;
pub use dispatch::SubstreamEvent;
pub use dispatch::SubstreamState;
pub use dispatch::substream_step;
pub use fixed_array::ByteArrayError;
pub use fixed_array::FixedByteArray;
pub use fixed_array::MAX_ARR_SIZE;
pub use message::Request;
pub use message::Response;
pub use message::RpcStatus;
pub use message::STATUS_FACTORY_FAILED;
pub use message::STATUS_OK;
pub use message::STATUS_PROTOCOL_SERVICE_NOT_FOUND;
pub use protocol::ProtocolId;
pub use router::Or;
pub use router::ProtocolServiceNotFound;
pub use router::RoutePredicate;
pub use router::Router;
pub use router::Routes;
pub use router::RpcServer;
pub use router::RpcServerError;
pub use router::RpcServerHandle;
pub use varint::DecodeError;
pub use varint::read_varint;
pub use varint::varint_required_space;
pub use varint::write_varint;
pub use wallet::boot_check;
pub use wallet::confirms_seed_words;
pub use wallet::parse_boot_choice;
pub use wallet::select_base_node_peer;
pub use wallet::select_password_source;
pub use wallet::wallet_mode;
pub use wallet::BootCheck;
pub use wallet::Cli;
pub use wallet::PasswordSource;
pub use wallet::WalletBoot;
pub use wallet::WalletMode;
pub use wire::CHUNK_MARKER;
pub use wire::END_OF_BODY_MARKER;
pub use wire::MAX_FRAME_SIZE;
pub use wire::decode_request;
pub use wire::decode_response;
pub use wire::encode_request;
pub use wire::encode_response;
