use vstd::prelude::*;

verus! {

/// One clipboard entry as it travels between devices and the server.
/// `content_type` is `Text`, `Image` or `File`; `hash` is the SHA-256 hex of the
/// content; `has_data` means the bytes travel separately under `data_name`.
#[derive(Debug, Clone)]
pub struct ProfileDto {
    pub content_type: String,
    pub hash: String,
    pub text: String,
    pub has_data: bool,
    pub data_name: String,
    pub size: i64,
}

/// The mathematical content of a `ProfileDto`.
pub struct ProfileView {
    pub content_type: Seq<char>,
    pub hash: Seq<char>,
    pub text: Seq<char>,
    pub has_data: bool,
    pub data_name: Seq<char>,
    pub size: i64,
}

impl View for ProfileDto {
    type V = ProfileView;

    open spec fn view(&self) -> ProfileView {
        ProfileView {
            content_type: self.content_type@,
            hash: self.hash@,
            text: self.text@,
            has_data: self.has_data,
            data_name: self.data_name@,
            size: self.size,
        }
    }
}

impl ProfileDto {
    /// A field-by-field copy.
    pub fn duplicate(&self) -> (r: ProfileDto)
        ensures
            r == *self,
    {
        ProfileDto {
            content_type: self.content_type.clone(),
            hash: self.hash.clone(),
            text: self.text.clone(),
            has_data: self.has_data,
            data_name: self.data_name.clone(),
            size: self.size,
        }
    }
}

/// Client to server WebSocket messages.
#[derive(Debug)]
pub enum WsClientMsg {
    Auth { token: String, device_id: String, name: Option<String> },
    LiteClipSync { payload: ProfileDto, device_id: String },
    GetLatest,
}

/// Server to client WebSocket messages.
#[derive(Debug)]
pub enum WsServerMsg {
    AuthOk { device_id: String },
    AuthError { reason: String },
    ClipBroadcast { payload: ProfileDto, source_device_id: String, source_device_name: String },
    Backlog { entries: Vec<ProfileDto> },
    LatestProfile { payload: ProfileDto, source_device_id: String, created_at: String },
}

} // verus!
