//! The upload protocol's request strings: the tile-upload URL, the finalize
//! URL, and the fixed constants both requests carry.

use vstd::prelude::*;

verus! {

use crate::text::decimal_spec;
use crate::text::trim_slash_spec;
use crate::text::trim_trailing_slashes;
use crate::text::u32_to_decimal;
use vstd::string::StringExecFns;

/// The tile-upload URL: the base server address with trailing slashes
/// stripped, then the layout key, the run's layout path, the zoom level and
/// the tile's absolute pixel offsets as path segments, and the access
/// secret as a query parameter.
pub open spec fn tile_url_spec(
    server: Seq<char>,
    layout_key: Seq<char>,
    layout_path: Seq<char>,
    secret: Seq<char>,
    level: nat,
    x_px: nat,
    y_px: nat,
) -> Seq<char> {
    trim_slash_spec(server) + "/LayoutUtil/UploadTile/"@ + layout_key + "/"@ + layout_path + "/"@
        + decimal_spec(level) + "/"@ + decimal_spec(x_px) + "/"@ + decimal_spec(y_px) + "?__sc__="@
        + secret
}

/// The finalize URL: the update-path endpoint with the layout key, the
/// layout path, the access secret and the finest zoom level reached, as
/// query parameters in that order.
pub open spec fn finalize_url_spec(
    server: Seq<char>,
    layout_key: Seq<char>,
    layout_path: Seq<char>,
    secret: Seq<char>,
    max_zoom: nat,
) -> Seq<char> {
    trim_slash_spec(server) + "/api/Location/LocationLayout/UpdatePath?LayoutKey="@ + layout_key
        + "&LayoutPath="@ + layout_path + "&apikey="@ + secret + "&MaxZoom="@ + decimal_spec(
        max_zoom,
    )
}

/// Builds the tile-upload URL. The offsets in the path are the tile's
/// absolute pixel position — its grid indices times the tile size — not
/// the grid indices themselves.
pub fn tile_upload_url(
    server: &str,
    layout_key: &str,
    layout_path: &str,
    secret: &str,
    level: u32,
    tile_x: u32,
    tile_y: u32,
    tile_size: u32,
) -> (r: String)
    requires
        tile_x * tile_size <= u32::MAX,
        tile_y * tile_size <= u32::MAX,
    ensures
        r@ == tile_url_spec(
            server@,
            layout_key@,
            layout_path@,
            secret@,
            level as nat,
            (tile_x * tile_size) as nat,
            (tile_y * tile_size) as nat,
        ),
{
    let x_px: u32 = tile_x * tile_size;
    let y_px: u32 = tile_y * tile_size;
    let mut r = trim_trailing_slashes(server);
    r.append("/LayoutUtil/UploadTile/");
    r.append(layout_key);
    r.append("/");
    r.append(layout_path);
    r.append("/");
    let level_digits = u32_to_decimal(level);
    r.append(level_digits.as_str());
    r.append("/");
    let x_digits = u32_to_decimal(x_px);
    r.append(x_digits.as_str());
    r.append("/");
    let y_digits = u32_to_decimal(y_px);
    r.append(y_digits.as_str());
    r.append("?__sc__=");
    r.append(secret);
    proof {
        assert(r@ =~= tile_url_spec(
            server@,
            layout_key@,
            layout_path@,
            secret@,
            level as nat,
            x_px as nat,
            y_px as nat,
        ));
    }
    r
}

/// Builds the finalize URL, called once after every tile went up.
pub fn finalize_url(
    server: &str,
    layout_key: &str,
    layout_path: &str,
    secret: &str,
    max_zoom: u32,
) -> (r: String)
    ensures
        r@ == finalize_url_spec(server@, layout_key@, layout_path@, secret@, max_zoom as nat),
{
    let mut r = trim_trailing_slashes(server);
    r.append("/api/Location/LocationLayout/UpdatePath?LayoutKey=");
    r.append(layout_key);
    r.append("&LayoutPath=");
    r.append(layout_path);
    r.append("&apikey=");
    r.append(secret);
    r.append("&MaxZoom=");
    let zoom_digits = u32_to_decimal(max_zoom);
    r.append(zoom_digits.as_str());
    proof {
        assert(r@ =~= finalize_url_spec(
            server@,
            layout_key@,
            layout_path@,
            secret@,
            max_zoom as nat,
        ));
    }
    r
}

/// The fixed identifying header value both requests carry.
pub fn user_agent() -> (r: String)
    ensures
        r@ == "SDLayoutUploader-Tauri"@,
{
    String::from_str("SDLayoutUploader-Tauri")
}

/// The name of the multipart part that carries the JPEG bytes.
pub fn multipart_field_name() -> (r: String)
    ensures
        r@ == "file"@,
{
    String::from_str("file")
}

/// The file name given to the JPEG part.
pub fn multipart_file_name() -> (r: String)
    ensures
        r@ == "tile.jpg"@,
{
    String::from_str("tile.jpg")
}

/// The MIME type given to the JPEG part.
pub fn multipart_mime_type() -> (r: String)
    ensures
        r@ == "image/jpeg"@,
{
    String::from_str("image/jpeg")
}

} // verus!
