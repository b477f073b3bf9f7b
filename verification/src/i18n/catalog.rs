//! The catalog of interface and error texts, in English and Simplified
//! Chinese, and the table of error phrases that have a translation.
use vstd::prelude::*;
use crate::text::str_eq;

verus! {

/// The translation key of an error phrase produced inside the application.
pub open spec fn error_key_of(phrase: Seq<char>) -> Option<Seq<char>> {
    if phrase == "Cannot connect to the receiver. Make sure it is online and try again"@ {
        Some("error.peer_unreachable"@)
    } else if phrase == "The receiver did not respond. Try again"@ {
        Some("error.peer_timeout"@)
    } else if phrase == "Could not verify the receiver. Check its identity and try again"@ {
        Some("error.peer_identity"@)
    } else if phrase == "The receiver requires a PIN"@ {
        Some("error.peer_pin"@)
    } else if phrase == "The receiver declined the transfer"@ {
        Some("error.peer_declined"@)
    } else if phrase == "The receiver is busy. Try again shortly"@ {
        Some("error.peer_busy"@)
    } else if phrase == "File verification failed. Try sending again"@ {
        Some("error.checksum_retry"@)
    } else if phrase == "Transfer failed. View logs for details"@ {
        Some("error.transfer_generic"@)
    } else if phrase == "Clipboard is empty"@ {
        Some("error.clipboard_empty"@)
    } else if phrase == "Copy the image as PNG or JPEG"@ {
        Some("error.clipboard_image_format"@)
    } else if phrase == "Network task stopped"@ {
        Some("error.network_task"@)
    } else if phrase == "File preparation stopped"@ {
        Some("error.file_task"@)
    } else if phrase == "Clipboard task stopped"@ {
        Some("error.clipboard_task"@)
    } else if phrase == "XDG_RUNTIME_DIR is not set; start Omasend in your Wayland session"@ {
        Some("error.no_runtime_dir"@)
    } else if phrase == "Clipboard temporary directory is not a directory"@ {
        Some("error.clipboard_tmp_kind"@)
    } else if phrase == "Clipboard temporary directory must be private (mode 700)"@ {
        Some("error.clipboard_tmp_mode"@)
    } else if phrase == "Clipboard did not respond"@ {
        Some("error.clipboard_timeout"@)
    } else if phrase == "Install wl-clipboard to paste from Wayland"@ {
        Some("error.wl_clipboard_missing"@)
    } else if phrase == "Cannot read clipboard; copy something first"@ {
        Some("error.clipboard_unreadable"@)
    } else if phrase == "Clipboard media read timed out"@ {
        Some("error.clipboard_media_timeout"@)
    } else if phrase == "Clipboard media is empty or changed; copy it again"@ {
        Some("error.clipboard_media_changed"@)
    } else if phrase == "Cannot read clipboard output"@ {
        Some("error.clipboard_output"@)
    } else if phrase == "Clipboard text read timed out"@ {
        Some("error.clipboard_text_timeout"@)
    } else if phrase == "Clipboard text exceeds 16 MB; send it as a file"@ {
        Some("error.clipboard_text_large"@)
    } else if phrase == "Clipboard changed; copy the content again"@ {
        Some("error.clipboard_changed"@)
    } else if phrase == "Clipboard text is empty"@ {
        Some("error.clipboard_text_empty"@)
    } else if phrase == "Choose the original file instead of a symbolic link"@ {
        Some("error.symlink"@)
    } else if phrase == "This folder contains no files; LocalSend cannot transfer empty folders"@ {
        Some("error.empty_folder"@)
    } else if phrase == "Select at most 10,000 files per transfer"@ {
        Some("error.too_many_files"@)
    } else if phrase == "Folder nesting exceeds 128 levels"@ {
        Some("error.deep_folder"@)
    } else if phrase == "File name is not valid UTF-8"@ {
        Some("error.name_utf8"@)
    } else if phrase == "Missing file name"@ {
        Some("error.name_missing"@)
    } else if phrase == "Invalid file name"@ {
        Some("error.name_invalid"@)
    } else if phrase == "Unsafe relative file path"@ {
        Some("error.path_unsafe"@)
    } else if phrase == "Absolute file paths are not accepted"@ {
        Some("error.path_absolute"@)
    } else if phrase == "Sender stopped responding"@ {
        Some("error.sender_stopped"@)
    } else if phrase == "Transfer cancelled"@ {
        Some("error.cancelled"@)
    } else if phrase == "File checksum did not match"@ {
        Some("error.checksum"@)
    } else if phrase == "Received more data than offered"@ {
        Some("error.overlong"@)
    } else if phrase == "Clipboard has no supported files, images, videos or text"@ {
        Some("error.clipboard_unsupported"@)
    } else if phrase == "Clipboard is empty; copy the content again"@ {
        Some("error.clipboard_empty_retry"@)
    } else if phrase == "File clipboard is not UTF-8"@ {
        Some("error.clipboard_list_utf8"@)
    } else if phrase == "Invalid clipboard file URI"@ {
        Some("error.clipboard_uri"@)
    } else if phrase == "Clipboard URI is not a local file"@ {
        Some("error.clipboard_uri_remote"@)
    } else if phrase == "File URI has a query or fragment"@ {
        Some("error.clipboard_uri_extra"@)
    } else if phrase == "Invalid clipboard file path"@ {
        Some("error.clipboard_path"@)
    } else if phrase == "Clipboard contains no local files"@ {
        Some("error.clipboard_no_files"@)
    } else if phrase == "Clipboard text is not UTF-8"@ {
        Some("error.clipboard_text_utf8"@)
    } else if phrase == "Unsupported clipboard media type"@ {
        Some("error.clipboard_media_type"@)
    } else if phrase == "The receiver did not respond"@ {
        Some("error.no_response"@)
    } else if phrase == "The receiver accepted no files"@ {
        Some("error.no_files_accepted"@)
    } else if phrase == "Receiver returned an unknown file ID"@ {
        Some("error.unknown_file_id"@)
    } else if phrase == "Transfer is too large"@ {
        Some("error.too_large"@)
    } else if phrase == "Network service stopped"@ {
        Some("error.network_service"@)
    } else if phrase == "Cannot create Downloads folder"@ {
        Some("error.downloads_create"@)
    } else if phrase == "Cannot locate your Downloads folder"@ {
        Some("error.downloads_missing"@)
    } else if phrase == "Cannot listen for LocalSend transfers; another app may be using port 53317"@ {
        Some("error.port_in_use"@)
    } else if phrase == "Multicast unavailable; trying local network discovery"@ {
        Some("error.multicast"@)
    } else if phrase == "Transfer task stopped"@ {
        Some("error.transfer_task"@)
    } else if phrase == "An encrypted connection is required"@ {
        Some("error.encryption_required"@)
    } else if phrase == "Offer must contain between 1 and 10,000 files"@ {
        Some("error.offer_range"@)
    } else if phrase == "File ID does not match its metadata"@ {
        Some("error.file_id_mismatch"@)
    } else if phrase == "Folder contains a symbolic link"@ {
        Some("error.folder_symlink"@)
    } else if phrase == "Folder contains a special file"@ {
        Some("error.folder_special"@)
    } else if phrase == "Clipboard file no longer exists"@ {
        Some("error.clipboard_file_gone"@)
    } else {
        None
    }
}

/// The catalog: for each key, its English and Simplified Chinese text.
pub open spec fn catalog_of(key: Seq<char>) -> Option<(Seq<char>, Seq<char>)> {
    if key == "error.peer_unreachable"@ {
        Some(("Cannot connect to the receiver. Make sure it is online and try again"@, "无法连接接收方，请确认对方在线后重试"@))
    } else if key == "error.peer_timeout"@ {
        Some(("The receiver did not respond. Try again"@, "接收方响应超时，请重试"@))
    } else if key == "error.peer_identity"@ {
        Some(("Could not verify the receiver. Check its identity and try again"@, "无法验证接收方身份，请确认对方身份后重试"@))
    } else if key == "error.peer_pin"@ {
        Some(("The receiver requires a PIN"@, "接收方需要 PIN 码"@))
    } else if key == "error.peer_declined"@ {
        Some(("The receiver declined the transfer"@, "接收方拒绝了传输"@))
    } else if key == "error.peer_busy"@ {
        Some(("The receiver is busy. Try again shortly"@, "接收方正忙，请稍后重试"@))
    } else if key == "error.checksum_retry"@ {
        Some(("File verification failed. Try sending again"@, "文件校验失败，请重新发送"@))
    } else if key == "error.transfer_generic"@ {
        Some(("Transfer failed. View logs for details"@, "传输失败，可查看日志了解详情"@))
    } else if key == "error.clipboard_empty"@ {
        Some(("Clipboard is empty"@, "剪贴板为空"@))
    } else if key == "error.clipboard_image_format"@ {
        Some(("Copy the image as PNG or JPEG"@, "请以 PNG 或 JPEG 格式复制图片"@))
    } else if key == "error.network_task"@ {
        Some(("Network task stopped"@, "网络任务已停止"@))
    } else if key == "error.file_task"@ {
        Some(("File preparation stopped"@, "文件准备已停止"@))
    } else if key == "error.clipboard_task"@ {
        Some(("Clipboard task stopped"@, "剪贴板任务已停止"@))
    } else if key == "error.no_runtime_dir"@ {
        Some(("XDG_RUNTIME_DIR is not set; start Omasend in your Wayland session"@, "未设置 XDG_RUNTIME_DIR，请在 Wayland 会话中启动 Omasend"@))
    } else if key == "error.clipboard_tmp_kind"@ {
        Some(("Clipboard temporary directory is not a directory"@, "剪贴板临时目录不是文件夹"@))
    } else if key == "error.clipboard_tmp_mode"@ {
        Some(("Clipboard temporary directory must be private (mode 700)"@, "剪贴板临时目录必须为私有（权限 700）"@))
    } else if key == "error.clipboard_timeout"@ {
        Some(("Clipboard did not respond"@, "剪贴板没有响应"@))
    } else if key == "error.wl_clipboard_missing"@ {
        Some(("Install wl-clipboard to paste from Wayland"@, "请安装 wl-clipboard 以从 Wayland 粘贴"@))
    } else if key == "error.clipboard_unreadable"@ {
        Some(("Cannot read clipboard; copy something first"@, "无法读取剪贴板，请先复制内容"@))
    } else if key == "error.clipboard_media_timeout"@ {
        Some(("Clipboard media read timed out"@, "读取剪贴板媒体超时"@))
    } else if key == "error.clipboard_media_changed"@ {
        Some(("Clipboard media is empty or changed; copy it again"@, "剪贴板媒体为空或已更改，请重新复制"@))
    } else if key == "error.clipboard_output"@ {
        Some(("Cannot read clipboard output"@, "无法读取剪贴板输出"@))
    } else if key == "error.clipboard_text_timeout"@ {
        Some(("Clipboard text read timed out"@, "读取剪贴板文本超时"@))
    } else if key == "error.clipboard_text_large"@ {
        Some(("Clipboard text exceeds 16 MB; send it as a file"@, "剪贴板文本超过 16 MB，请作为文件发送"@))
    } else if key == "error.clipboard_changed"@ {
        Some(("Clipboard changed; copy the content again"@, "剪贴板已更改，请重新复制内容"@))
    } else if key == "error.clipboard_text_empty"@ {
        Some(("Clipboard text is empty"@, "剪贴板文本为空"@))
    } else if key == "error.symlink"@ {
        Some(("Choose the original file instead of a symbolic link"@, "请选择原始文件，而不是符号链接"@))
    } else if key == "error.empty_folder"@ {
        Some(("This folder contains no files; LocalSend cannot transfer empty folders"@, "此文件夹不包含文件，LocalSend 无法传输空文件夹"@))
    } else if key == "error.too_many_files"@ {
        Some(("Select at most 10,000 files per transfer"@, "每次传输最多选择 10,000 个文件"@))
    } else if key == "error.deep_folder"@ {
        Some(("Folder nesting exceeds 128 levels"@, "文件夹嵌套超过 128 层"@))
    } else if key == "error.name_utf8"@ {
        Some(("File name is not valid UTF-8"@, "文件名不是有效的 UTF-8"@))
    } else if key == "error.name_missing"@ {
        Some(("Missing file name"@, "缺少文件名"@))
    } else if key == "error.name_invalid"@ {
        Some(("Invalid file name"@, "文件名无效"@))
    } else if key == "error.path_unsafe"@ {
        Some(("Unsafe relative file path"@, "不安全的相对文件路径"@))
    } else if key == "error.path_absolute"@ {
        Some(("Absolute file paths are not accepted"@, "不接受绝对文件路径"@))
    } else if key == "error.sender_stopped"@ {
        Some(("Sender stopped responding"@, "发送方停止响应"@))
    } else if key == "error.cancelled"@ {
        Some(("Transfer cancelled"@, "传输已取消"@))
    } else if key == "error.checksum"@ {
        Some(("File checksum did not match"@, "文件校验和不匹配"@))
    } else if key == "error.overlong"@ {
        Some(("Received more data than offered"@, "收到的数据多于发送方提供的数据"@))
    } else if key == "error.clipboard_unsupported"@ {
        Some(("Clipboard has no supported files, images, videos or text"@, "剪贴板中没有受支持的文件、图片、视频或文本"@))
    } else if key == "error.clipboard_empty_retry"@ {
        Some(("Clipboard is empty; copy the content again"@, "剪贴板为空，请重新复制内容"@))
    } else if key == "error.clipboard_list_utf8"@ {
        Some(("File clipboard is not UTF-8"@, "文件剪贴板不是 UTF-8"@))
    } else if key == "error.clipboard_uri"@ {
        Some(("Invalid clipboard file URI"@, "剪贴板文件 URI 无效"@))
    } else if key == "error.clipboard_uri_remote"@ {
        Some(("Clipboard URI is not a local file"@, "剪贴板 URI 不是本地文件"@))
    } else if key == "error.clipboard_uri_extra"@ {
        Some(("File URI has a query or fragment"@, "文件 URI 含有查询或片段"@))
    } else if key == "error.clipboard_path"@ {
        Some(("Invalid clipboard file path"@, "剪贴板文件路径无效"@))
    } else if key == "error.clipboard_no_files"@ {
        Some(("Clipboard contains no local files"@, "剪贴板中没有本地文件"@))
    } else if key == "error.clipboard_text_utf8"@ {
        Some(("Clipboard text is not UTF-8"@, "剪贴板文本不是 UTF-8"@))
    } else if key == "error.clipboard_media_type"@ {
        Some(("Unsupported clipboard media type"@, "不支持的剪贴板媒体类型"@))
    } else if key == "error.no_response"@ {
        Some(("The receiver did not respond"@, "接收方没有响应"@))
    } else if key == "error.no_files_accepted"@ {
        Some(("The receiver accepted no files"@, "接收方没有接受任何文件"@))
    } else if key == "error.unknown_file_id"@ {
        Some(("Receiver returned an unknown file ID"@, "接收方返回了未知的文件 ID"@))
    } else if key == "error.too_large"@ {
        Some(("Transfer is too large"@, "传输内容过大"@))
    } else if key == "error.network_service"@ {
        Some(("Network service stopped"@, "网络服务已停止"@))
    } else if key == "error.downloads_create"@ {
        Some(("Cannot create Downloads folder"@, "无法创建下载文件夹"@))
    } else if key == "error.downloads_missing"@ {
        Some(("Cannot locate your Downloads folder"@, "找不到下载文件夹"@))
    } else if key == "error.port_in_use"@ {
        Some(("Cannot listen for LocalSend transfers; another app may be using port 53317"@, "无法监听 LocalSend 传输，其他应用可能正在使用端口 53317"@))
    } else if key == "error.multicast"@ {
        Some(("Multicast unavailable; trying local network discovery"@, "组播不可用，正在尝试局域网发现"@))
    } else if key == "error.transfer_task"@ {
        Some(("Transfer task stopped"@, "传输任务已停止"@))
    } else if key == "error.encryption_required"@ {
        Some(("An encrypted connection is required"@, "需要加密连接"@))
    } else if key == "error.offer_range"@ {
        Some(("Offer must contain between 1 and 10,000 files"@, "传输请求必须包含 1 到 10,000 个文件"@))
    } else if key == "error.file_id_mismatch"@ {
        Some(("File ID does not match its metadata"@, "文件 ID 与其元数据不匹配"@))
    } else if key == "error.folder_symlink"@ {
        Some(("Folder contains a symbolic link"@, "文件夹包含符号链接"@))
    } else if key == "error.folder_special"@ {
        Some(("Folder contains a special file"@, "文件夹包含特殊文件"@))
    } else if key == "error.clipboard_file_gone"@ {
        Some(("Clipboard file no longer exists"@, "剪贴板文件已不存在"@))
    } else if key == "action.accept"@ {
        Some(("Accept"@, "接受"@))
    } else if key == "action.add_files"@ {
        Some(("Add files…"@, "添加文件…"@))
    } else if key == "action.cancel"@ {
        Some(("Cancel"@, "取消"@))
    } else if key == "action.close"@ {
        Some(("Close"@, "关闭"@))
    } else if key == "action.copy"@ {
        Some(("Copy"@, "复制"@))
    } else if key == "action.decline"@ {
        Some(("Decline"@, "拒绝"@))
    } else if key == "action.paste"@ {
        Some(("Paste"@, "粘贴"@))
    } else if key == "action.preview"@ {
        Some(("Preview"@, "预览"@))
    } else if key == "action.preview_ellipsis"@ {
        Some(("Preview…"@, "预览…"@))
    } else if key == "action.remove"@ {
        Some(("Remove"@, "移除"@))
    } else if key == "action.send_to"@ {
        Some(("Send to %{name}"@, "发送到 %{name}"@))
    } else if key == "action.show_in_files"@ {
        Some(("Show in Files"@, "在文件管理器中显示"@))
    } else if key == "action.show_text"@ {
        Some(("Show text"@, "显示文本"@))
    } else if key == "composer.drop_hint"@ {
        Some(("Drop files here"@, "将文件拖放到此处"@))
    } else if key == "composer.drop_kinds"@ {
        Some(("Files, folders, screenshots, recordings or text"@, "文件、文件夹、截图、录屏或文本"@))
    } else if key == "dialog.received_text"@ {
        Some(("Received text"@, "收到的文本"@))
    } else if key == "history.file_one"@ {
        Some(("%{count} file"@, "%{count} 个文件"@))
    } else if key == "history.file_other"@ {
        Some(("%{count} files"@, "%{count} 个文件"@))
    } else if key == "history.from"@ {
        Some(("From %{name}"@, "来自 %{name}"@))
    } else if key == "history.item_one"@ {
        Some(("%{count} item"@, "%{count} 项"@))
    } else if key == "history.item_other"@ {
        Some(("%{count} items"@, "%{count} 项"@))
    } else if key == "receive.destination"@ {
        Some(("Files are saved to Downloads"@, "文件将保存到下载文件夹"@))
    } else if key == "receive.title"@ {
        Some(("%{name} wants to send you"@, "%{name} 想向你发送"@))
    } else if key == "status.copied"@ {
        Some(("Copied"@, "已复制"@))
    } else if key == "status.done"@ {
        Some(("Done"@, "完成"@))
    } else if key == "update.download"@ {
        Some(("Download %{name}…"@, "下载 %{name}…"@))
    } else if key == "update.checking"@ {
        Some(("Checking for updates…"@, "正在检查更新…"@))
    } else if key == "update.current"@ {
        Some(("Up to date"@, "已是最新版本"@))
    } else if key == "update.no_release"@ {
        Some(("No releases yet"@, "暂无发布版本"@))
    } else if key == "update.failed"@ {
        Some(("Update check failed"@, "检查更新失败"@))
    } else if key == "About…"@ {
        Some(("About…"@, "关于…"@))
    } else if key == "Add files…"@ {
        Some(("Add files…"@, "添加文件…"@))
    } else if key == "Add to OmaSend"@ {
        Some(("Add to OmaSend"@, "添加到 OmaSend"@))
    } else if key == "Cancel"@ {
        Some(("Cancel"@, "取消"@))
    } else if key == "Check for update"@ {
        Some(("Check for update"@, "检查更新"@))
    } else if key == "Choose a nearby device"@ {
        Some(("Choose a nearby device"@, "选择附近的设备"@))
    } else if key == "Clear"@ {
        Some(("Clear"@, "清除"@))
    } else if key == "Clear transfer history"@ {
        Some(("Clear transfer history"@, "清除传输历史"@))
    } else if key == "Close"@ {
        Some(("Close"@, "关闭"@))
    } else if key == "Dismiss"@ {
        Some(("Dismiss"@, "忽略"@))
    } else if key == "Exit"@ {
        Some(("Exit"@, "退出"@))
    } else if key == "Language"@ {
        Some(("Language"@, "语言"@))
    } else if key == "Logs"@ {
        Some(("Logs"@, "日志"@))
    } else if key == "Logs…"@ {
        Some(("Logs…"@, "日志…"@))
    } else if key == "Looking for devices… Open LocalSend on the same Wi-Fi."@ {
        Some(("Looking for devices… Open LocalSend on the same Wi-Fi."@, "正在查找设备… 请在同一 Wi-Fi 下打开 LocalSend。"@))
    } else if key == "Menu"@ {
        Some(("Menu"@, "菜单"@))
    } else if key == "Nearby"@ {
        Some(("Nearby"@, "附近"@))
    } else if key == "No logs yet"@ {
        Some(("No logs yet"@, "暂无日志"@))
    } else if key == "No transfers yet"@ {
        Some(("No transfers yet"@, "暂无传输"@))
    } else if key == "Open"@ {
        Some(("Open"@, "打开"@))
    } else if key == "Outbox"@ {
        Some(("Outbox"@, "发件箱"@))
    } else if key == "Paste"@ {
        Some(("Paste"@, "粘贴"@))
    } else if key == "Preparing…"@ {
        Some(("Preparing…"@, "准备中…"@))
    } else if key == "Retry"@ {
        Some(("Retry"@, "重试"@))
    } else if key == "Show in Files"@ {
        Some(("Show in Files"@, "在文件管理器中显示"@))
    } else if key == "Theme"@ {
        Some(("Theme"@, "主题"@))
    } else if key == "Transfer history"@ {
        Some(("Transfer history"@, "传输历史"@))
    } else if key == "System"@ {
        Some(("System"@, "跟随系统"@))
    } else if key == "Light"@ {
        Some(("Light"@, "浅色"@))
    } else if key == "Dark"@ {
        Some(("Dark"@, "深色"@))
    } else if key == "Collapse"@ {
        Some(("Collapse"@, "收起"@))
    } else if key == "Expand"@ {
        Some(("Expand"@, "展开"@))
    } else if key == "Send"@ {
        Some(("Send"@, "发送"@))
    } else if key == "Sending"@ {
        Some(("Sending"@, "发送中"@))
    } else if key == "Receiving"@ {
        Some(("Receiving"@, "接收中"@))
    } else if key == "Waiting for receiver"@ {
        Some(("Waiting for receiver"@, "等待接收方"@))
    } else if key == "Sent"@ {
        Some(("Sent"@, "已发送"@))
    } else if key == "Received"@ {
        Some(("Received"@, "已接收"@))
    } else if key == "Cancelled"@ {
        Some(("Cancelled"@, "已取消"@))
    } else if key == "Failed"@ {
        Some(("Failed"@, "失败"@))
    } else if key == "Connecting…"@ {
        Some(("Connecting…"@, "连接中…"@))
    } else if key == "Disconnected"@ {
        Some(("Disconnected"@, "已断开"@))
    } else if key == "Searching for devices…"@ {
        Some(("Searching for devices…"@, "正在搜索设备…"@))
    } else if key == "Connected"@ {
        Some(("Connected"@, "已连接"@))
    } else if key == "nearby.select"@ {
        Some(("Select %{name}"@, "选择 %{name}"@))
    } else if key == "transfer.to"@ {
        Some(("to %{name}"@, "发送至 %{name}"@))
    } else {
        None
    }
}

/// Looks up the translation key of an error phrase.
pub(crate) fn error_key(phrase: &str) -> (r: Option<&'static str>)
    ensures
        r is None <==> error_key_of(phrase@) is None,
        r matches Some(k) ==> error_key_of(phrase@) == Some(k@),
{
    if str_eq(phrase, "Cannot connect to the receiver. Make sure it is online and try again") {
        Some("error.peer_unreachable")
    } else if str_eq(phrase, "The receiver did not respond. Try again") {
        Some("error.peer_timeout")
    } else if str_eq(phrase, "Could not verify the receiver. Check its identity and try again") {
        Some("error.peer_identity")
    } else if str_eq(phrase, "The receiver requires a PIN") {
        Some("error.peer_pin")
    } else if str_eq(phrase, "The receiver declined the transfer") {
        Some("error.peer_declined")
    } else if str_eq(phrase, "The receiver is busy. Try again shortly") {
        Some("error.peer_busy")
    } else if str_eq(phrase, "File verification failed. Try sending again") {
        Some("error.checksum_retry")
    } else if str_eq(phrase, "Transfer failed. View logs for details") {
        Some("error.transfer_generic")
    } else if str_eq(phrase, "Clipboard is empty") {
        Some("error.clipboard_empty")
    } else if str_eq(phrase, "Copy the image as PNG or JPEG") {
        Some("error.clipboard_image_format")
    } else if str_eq(phrase, "Network task stopped") {
        Some("error.network_task")
    } else if str_eq(phrase, "File preparation stopped") {
        Some("error.file_task")
    } else if str_eq(phrase, "Clipboard task stopped") {
        Some("error.clipboard_task")
    } else if str_eq(phrase, "XDG_RUNTIME_DIR is not set; start Omasend in your Wayland session") {
        Some("error.no_runtime_dir")
    } else if str_eq(phrase, "Clipboard temporary directory is not a directory") {
        Some("error.clipboard_tmp_kind")
    } else if str_eq(phrase, "Clipboard temporary directory must be private (mode 700)") {
        Some("error.clipboard_tmp_mode")
    } else if str_eq(phrase, "Clipboard did not respond") {
        Some("error.clipboard_timeout")
    } else if str_eq(phrase, "Install wl-clipboard to paste from Wayland") {
        Some("error.wl_clipboard_missing")
    } else if str_eq(phrase, "Cannot read clipboard; copy something first") {
        Some("error.clipboard_unreadable")
    } else if str_eq(phrase, "Clipboard media read timed out") {
        Some("error.clipboard_media_timeout")
    } else if str_eq(phrase, "Clipboard media is empty or changed; copy it again") {
        Some("error.clipboard_media_changed")
    } else if str_eq(phrase, "Cannot read clipboard output") {
        Some("error.clipboard_output")
    } else if str_eq(phrase, "Clipboard text read timed out") {
        Some("error.clipboard_text_timeout")
    } else if str_eq(phrase, "Clipboard text exceeds 16 MB; send it as a file") {
        Some("error.clipboard_text_large")
    } else if str_eq(phrase, "Clipboard changed; copy the content again") {
        Some("error.clipboard_changed")
    } else if str_eq(phrase, "Clipboard text is empty") {
        Some("error.clipboard_text_empty")
    } else if str_eq(phrase, "Choose the original file instead of a symbolic link") {
        Some("error.symlink")
    } else if str_eq(phrase, "This folder contains no files; LocalSend cannot transfer empty folders") {
        Some("error.empty_folder")
    } else if str_eq(phrase, "Select at most 10,000 files per transfer") {
        Some("error.too_many_files")
    } else if str_eq(phrase, "Folder nesting exceeds 128 levels") {
        Some("error.deep_folder")
    } else if str_eq(phrase, "File name is not valid UTF-8") {
        Some("error.name_utf8")
    } else if str_eq(phrase, "Missing file name") {
        Some("error.name_missing")
    } else if str_eq(phrase, "Invalid file name") {
        Some("error.name_invalid")
    } else if str_eq(phrase, "Unsafe relative file path") {
        Some("error.path_unsafe")
    } else if str_eq(phrase, "Absolute file paths are not accepted") {
        Some("error.path_absolute")
    } else if str_eq(phrase, "Sender stopped responding") {
        Some("error.sender_stopped")
    } else if str_eq(phrase, "Transfer cancelled") {
        Some("error.cancelled")
    } else if str_eq(phrase, "File checksum did not match") {
        Some("error.checksum")
    } else if str_eq(phrase, "Received more data than offered") {
        Some("error.overlong")
    } else if str_eq(phrase, "Clipboard has no supported files, images, videos or text") {
        Some("error.clipboard_unsupported")
    } else if str_eq(phrase, "Clipboard is empty; copy the content again") {
        Some("error.clipboard_empty_retry")
    } else if str_eq(phrase, "File clipboard is not UTF-8") {
        Some("error.clipboard_list_utf8")
    } else if str_eq(phrase, "Invalid clipboard file URI") {
        Some("error.clipboard_uri")
    } else if str_eq(phrase, "Clipboard URI is not a local file") {
        Some("error.clipboard_uri_remote")
    } else if str_eq(phrase, "File URI has a query or fragment") {
        Some("error.clipboard_uri_extra")
    } else if str_eq(phrase, "Invalid clipboard file path") {
        Some("error.clipboard_path")
    } else if str_eq(phrase, "Clipboard contains no local files") {
        Some("error.clipboard_no_files")
    } else if str_eq(phrase, "Clipboard text is not UTF-8") {
        Some("error.clipboard_text_utf8")
    } else if str_eq(phrase, "Unsupported clipboard media type") {
        Some("error.clipboard_media_type")
    } else if str_eq(phrase, "The receiver did not respond") {
        Some("error.no_response")
    } else if str_eq(phrase, "The receiver accepted no files") {
        Some("error.no_files_accepted")
    } else if str_eq(phrase, "Receiver returned an unknown file ID") {
        Some("error.unknown_file_id")
    } else if str_eq(phrase, "Transfer is too large") {
        Some("error.too_large")
    } else if str_eq(phrase, "Network service stopped") {
        Some("error.network_service")
    } else if str_eq(phrase, "Cannot create Downloads folder") {
        Some("error.downloads_create")
    } else if str_eq(phrase, "Cannot locate your Downloads folder") {
        Some("error.downloads_missing")
    } else if str_eq(phrase, "Cannot listen for LocalSend transfers; another app may be using port 53317") {
        Some("error.port_in_use")
    } else if str_eq(phrase, "Multicast unavailable; trying local network discovery") {
        Some("error.multicast")
    } else if str_eq(phrase, "Transfer task stopped") {
        Some("error.transfer_task")
    } else if str_eq(phrase, "An encrypted connection is required") {
        Some("error.encryption_required")
    } else if str_eq(phrase, "Offer must contain between 1 and 10,000 files") {
        Some("error.offer_range")
    } else if str_eq(phrase, "File ID does not match its metadata") {
        Some("error.file_id_mismatch")
    } else if str_eq(phrase, "Folder contains a symbolic link") {
        Some("error.folder_symlink")
    } else if str_eq(phrase, "Folder contains a special file") {
        Some("error.folder_special")
    } else if str_eq(phrase, "Clipboard file no longer exists") {
        Some("error.clipboard_file_gone")
    } else {
        None
    }
}

/// Looks up a key in the catalog.
pub(crate) fn catalog_entry(key: &str) -> (r: Option<(&'static str, &'static str)>)
    ensures
        r is None <==> catalog_of(key@) is None,
        r matches Some((en, zh)) ==> catalog_of(key@) == Some((en@, zh@)),
{
    if str_eq(key, "error.peer_unreachable") {
        Some(("Cannot connect to the receiver. Make sure it is online and try again", "无法连接接收方，请确认对方在线后重试"))
    } else if str_eq(key, "error.peer_timeout") {
        Some(("The receiver did not respond. Try again", "接收方响应超时，请重试"))
    } else if str_eq(key, "error.peer_identity") {
        Some(("Could not verify the receiver. Check its identity and try again", "无法验证接收方身份，请确认对方身份后重试"))
    } else if str_eq(key, "error.peer_pin") {
        Some(("The receiver requires a PIN", "接收方需要 PIN 码"))
    } else if str_eq(key, "error.peer_declined") {
        Some(("The receiver declined the transfer", "接收方拒绝了传输"))
    } else if str_eq(key, "error.peer_busy") {
        Some(("The receiver is busy. Try again shortly", "接收方正忙，请稍后重试"))
    } else if str_eq(key, "error.checksum_retry") {
        Some(("File verification failed. Try sending again", "文件校验失败，请重新发送"))
    } else if str_eq(key, "error.transfer_generic") {
        Some(("Transfer failed. View logs for details", "传输失败，可查看日志了解详情"))
    } else if str_eq(key, "error.clipboard_empty") {
        Some(("Clipboard is empty", "剪贴板为空"))
    } else if str_eq(key, "error.clipboard_image_format") {
        Some(("Copy the image as PNG or JPEG", "请以 PNG 或 JPEG 格式复制图片"))
    } else if str_eq(key, "error.network_task") {
        Some(("Network task stopped", "网络任务已停止"))
    } else if str_eq(key, "error.file_task") {
        Some(("File preparation stopped", "文件准备已停止"))
    } else if str_eq(key, "error.clipboard_task") {
        Some(("Clipboard task stopped", "剪贴板任务已停止"))
    } else if str_eq(key, "error.no_runtime_dir") {
        Some(("XDG_RUNTIME_DIR is not set; start Omasend in your Wayland session", "未设置 XDG_RUNTIME_DIR，请在 Wayland 会话中启动 Omasend"))
    } else if str_eq(key, "error.clipboard_tmp_kind") {
        Some(("Clipboard temporary directory is not a directory", "剪贴板临时目录不是文件夹"))
    } else if str_eq(key, "error.clipboard_tmp_mode") {
        Some(("Clipboard temporary directory must be private (mode 700)", "剪贴板临时目录必须为私有（权限 700）"))
    } else if str_eq(key, "error.clipboard_timeout") {
        Some(("Clipboard did not respond", "剪贴板没有响应"))
    } else if str_eq(key, "error.wl_clipboard_missing") {
        Some(("Install wl-clipboard to paste from Wayland", "请安装 wl-clipboard 以从 Wayland 粘贴"))
    } else if str_eq(key, "error.clipboard_unreadable") {
        Some(("Cannot read clipboard; copy something first", "无法读取剪贴板，请先复制内容"))
    } else if str_eq(key, "error.clipboard_media_timeout") {
        Some(("Clipboard media read timed out", "读取剪贴板媒体超时"))
    } else if str_eq(key, "error.clipboard_media_changed") {
        Some(("Clipboard media is empty or changed; copy it again", "剪贴板媒体为空或已更改，请重新复制"))
    } else if str_eq(key, "error.clipboard_output") {
        Some(("Cannot read clipboard output", "无法读取剪贴板输出"))
    } else if str_eq(key, "error.clipboard_text_timeout") {
        Some(("Clipboard text read timed out", "读取剪贴板文本超时"))
    } else if str_eq(key, "error.clipboard_text_large") {
        Some(("Clipboard text exceeds 16 MB; send it as a file", "剪贴板文本超过 16 MB，请作为文件发送"))
    } else if str_eq(key, "error.clipboard_changed") {
        Some(("Clipboard changed; copy the content again", "剪贴板已更改，请重新复制内容"))
    } else if str_eq(key, "error.clipboard_text_empty") {
        Some(("Clipboard text is empty", "剪贴板文本为空"))
    } else if str_eq(key, "error.symlink") {
        Some(("Choose the original file instead of a symbolic link", "请选择原始文件，而不是符号链接"))
    } else if str_eq(key, "error.empty_folder") {
        Some(("This folder contains no files; LocalSend cannot transfer empty folders", "此文件夹不包含文件，LocalSend 无法传输空文件夹"))
    } else if str_eq(key, "error.too_many_files") {
        Some(("Select at most 10,000 files per transfer", "每次传输最多选择 10,000 个文件"))
    } else if str_eq(key, "error.deep_folder") {
        Some(("Folder nesting exceeds 128 levels", "文件夹嵌套超过 128 层"))
    } else if str_eq(key, "error.name_utf8") {
        Some(("File name is not valid UTF-8", "文件名不是有效的 UTF-8"))
    } else if str_eq(key, "error.name_missing") {
        Some(("Missing file name", "缺少文件名"))
    } else if str_eq(key, "error.name_invalid") {
        Some(("Invalid file name", "文件名无效"))
    } else if str_eq(key, "error.path_unsafe") {
        Some(("Unsafe relative file path", "不安全的相对文件路径"))
    } else if str_eq(key, "error.path_absolute") {
        Some(("Absolute file paths are not accepted", "不接受绝对文件路径"))
    } else if str_eq(key, "error.sender_stopped") {
        Some(("Sender stopped responding", "发送方停止响应"))
    } else if str_eq(key, "error.cancelled") {
        Some(("Transfer cancelled", "传输已取消"))
    } else if str_eq(key, "error.checksum") {
        Some(("File checksum did not match", "文件校验和不匹配"))
    } else if str_eq(key, "error.overlong") {
        Some(("Received more data than offered", "收到的数据多于发送方提供的数据"))
    } else if str_eq(key, "error.clipboard_unsupported") {
        Some(("Clipboard has no supported files, images, videos or text", "剪贴板中没有受支持的文件、图片、视频或文本"))
    } else if str_eq(key, "error.clipboard_empty_retry") {
        Some(("Clipboard is empty; copy the content again", "剪贴板为空，请重新复制内容"))
    } else if str_eq(key, "error.clipboard_list_utf8") {
        Some(("File clipboard is not UTF-8", "文件剪贴板不是 UTF-8"))
    } else if str_eq(key, "error.clipboard_uri") {
        Some(("Invalid clipboard file URI", "剪贴板文件 URI 无效"))
    } else if str_eq(key, "error.clipboard_uri_remote") {
        Some(("Clipboard URI is not a local file", "剪贴板 URI 不是本地文件"))
    } else if str_eq(key, "error.clipboard_uri_extra") {
        Some(("File URI has a query or fragment", "文件 URI 含有查询或片段"))
    } else if str_eq(key, "error.clipboard_path") {
        Some(("Invalid clipboard file path", "剪贴板文件路径无效"))
    } else if str_eq(key, "error.clipboard_no_files") {
        Some(("Clipboard contains no local files", "剪贴板中没有本地文件"))
    } else if str_eq(key, "error.clipboard_text_utf8") {
        Some(("Clipboard text is not UTF-8", "剪贴板文本不是 UTF-8"))
    } else if str_eq(key, "error.clipboard_media_type") {
        Some(("Unsupported clipboard media type", "不支持的剪贴板媒体类型"))
    } else if str_eq(key, "error.no_response") {
        Some(("The receiver did not respond", "接收方没有响应"))
    } else if str_eq(key, "error.no_files_accepted") {
        Some(("The receiver accepted no files", "接收方没有接受任何文件"))
    } else if str_eq(key, "error.unknown_file_id") {
        Some(("Receiver returned an unknown file ID", "接收方返回了未知的文件 ID"))
    } else if str_eq(key, "error.too_large") {
        Some(("Transfer is too large", "传输内容过大"))
    } else if str_eq(key, "error.network_service") {
        Some(("Network service stopped", "网络服务已停止"))
    } else if str_eq(key, "error.downloads_create") {
        Some(("Cannot create Downloads folder", "无法创建下载文件夹"))
    } else if str_eq(key, "error.downloads_missing") {
        Some(("Cannot locate your Downloads folder", "找不到下载文件夹"))
    } else if str_eq(key, "error.port_in_use") {
        Some(("Cannot listen for LocalSend transfers; another app may be using port 53317", "无法监听 LocalSend 传输，其他应用可能正在使用端口 53317"))
    } else if str_eq(key, "error.multicast") {
        Some(("Multicast unavailable; trying local network discovery", "组播不可用，正在尝试局域网发现"))
    } else if str_eq(key, "error.transfer_task") {
        Some(("Transfer task stopped", "传输任务已停止"))
    } else if str_eq(key, "error.encryption_required") {
        Some(("An encrypted connection is required", "需要加密连接"))
    } else if str_eq(key, "error.offer_range") {
        Some(("Offer must contain between 1 and 10,000 files", "传输请求必须包含 1 到 10,000 个文件"))
    } else if str_eq(key, "error.file_id_mismatch") {
        Some(("File ID does not match its metadata", "文件 ID 与其元数据不匹配"))
    } else if str_eq(key, "error.folder_symlink") {
        Some(("Folder contains a symbolic link", "文件夹包含符号链接"))
    } else if str_eq(key, "error.folder_special") {
        Some(("Folder contains a special file", "文件夹包含特殊文件"))
    } else if str_eq(key, "error.clipboard_file_gone") {
        Some(("Clipboard file no longer exists", "剪贴板文件已不存在"))
    } else if str_eq(key, "action.accept") {
        Some(("Accept", "接受"))
    } else if str_eq(key, "action.add_files") {
        Some(("Add files…", "添加文件…"))
    } else if str_eq(key, "action.cancel") {
        Some(("Cancel", "取消"))
    } else if str_eq(key, "action.close") {
        Some(("Close", "关闭"))
    } else if str_eq(key, "action.copy") {
        Some(("Copy", "复制"))
    } else if str_eq(key, "action.decline") {
        Some(("Decline", "拒绝"))
    } else if str_eq(key, "action.paste") {
        Some(("Paste", "粘贴"))
    } else if str_eq(key, "action.preview") {
        Some(("Preview", "预览"))
    } else if str_eq(key, "action.preview_ellipsis") {
        Some(("Preview…", "预览…"))
    } else if str_eq(key, "action.remove") {
        Some(("Remove", "移除"))
    } else if str_eq(key, "action.send_to") {
        Some(("Send to %{name}", "发送到 %{name}"))
    } else if str_eq(key, "action.show_in_files") {
        Some(("Show in Files", "在文件管理器中显示"))
    } else if str_eq(key, "action.show_text") {
        Some(("Show text", "显示文本"))
    } else if str_eq(key, "composer.drop_hint") {
        Some(("Drop files here", "将文件拖放到此处"))
    } else if str_eq(key, "composer.drop_kinds") {
        Some(("Files, folders, screenshots, recordings or text", "文件、文件夹、截图、录屏或文本"))
    } else if str_eq(key, "dialog.received_text") {
        Some(("Received text", "收到的文本"))
    } else if str_eq(key, "history.file_one") {
        Some(("%{count} file", "%{count} 个文件"))
    } else if str_eq(key, "history.file_other") {
        Some(("%{count} files", "%{count} 个文件"))
    } else if str_eq(key, "history.from") {
        Some(("From %{name}", "来自 %{name}"))
    } else if str_eq(key, "history.item_one") {
        Some(("%{count} item", "%{count} 项"))
    } else if str_eq(key, "history.item_other") {
        Some(("%{count} items", "%{count} 项"))
    } else if str_eq(key, "receive.destination") {
        Some(("Files are saved to Downloads", "文件将保存到下载文件夹"))
    } else if str_eq(key, "receive.title") {
        Some(("%{name} wants to send you", "%{name} 想向你发送"))
    } else if str_eq(key, "status.copied") {
        Some(("Copied", "已复制"))
    } else if str_eq(key, "status.done") {
        Some(("Done", "完成"))
    } else if str_eq(key, "update.download") {
        Some(("Download %{name}…", "下载 %{name}…"))
    } else if str_eq(key, "update.checking") {
        Some(("Checking for updates…", "正在检查更新…"))
    } else if str_eq(key, "update.current") {
        Some(("Up to date", "已是最新版本"))
    } else if str_eq(key, "update.no_release") {
        Some(("No releases yet", "暂无发布版本"))
    } else if str_eq(key, "update.failed") {
        Some(("Update check failed", "检查更新失败"))
    } else if str_eq(key, "About…") {
        Some(("About…", "关于…"))
    } else if str_eq(key, "Add files…") {
        Some(("Add files…", "添加文件…"))
    } else if str_eq(key, "Add to OmaSend") {
        Some(("Add to OmaSend", "添加到 OmaSend"))
    } else if str_eq(key, "Cancel") {
        Some(("Cancel", "取消"))
    } else if str_eq(key, "Check for update") {
        Some(("Check for update", "检查更新"))
    } else if str_eq(key, "Choose a nearby device") {
        Some(("Choose a nearby device", "选择附近的设备"))
    } else if str_eq(key, "Clear") {
        Some(("Clear", "清除"))
    } else if str_eq(key, "Clear transfer history") {
        Some(("Clear transfer history", "清除传输历史"))
    } else if str_eq(key, "Close") {
        Some(("Close", "关闭"))
    } else if str_eq(key, "Dismiss") {
        Some(("Dismiss", "忽略"))
    } else if str_eq(key, "Exit") {
        Some(("Exit", "退出"))
    } else if str_eq(key, "Language") {
        Some(("Language", "语言"))
    } else if str_eq(key, "Logs") {
        Some(("Logs", "日志"))
    } else if str_eq(key, "Logs…") {
        Some(("Logs…", "日志…"))
    } else if str_eq(key, "Looking for devices… Open LocalSend on the same Wi-Fi.") {
        Some(("Looking for devices… Open LocalSend on the same Wi-Fi.", "正在查找设备… 请在同一 Wi-Fi 下打开 LocalSend。"))
    } else if str_eq(key, "Menu") {
        Some(("Menu", "菜单"))
    } else if str_eq(key, "Nearby") {
        Some(("Nearby", "附近"))
    } else if str_eq(key, "No logs yet") {
        Some(("No logs yet", "暂无日志"))
    } else if str_eq(key, "No transfers yet") {
        Some(("No transfers yet", "暂无传输"))
    } else if str_eq(key, "Open") {
        Some(("Open", "打开"))
    } else if str_eq(key, "Outbox") {
        Some(("Outbox", "发件箱"))
    } else if str_eq(key, "Paste") {
        Some(("Paste", "粘贴"))
    } else if str_eq(key, "Preparing…") {
        Some(("Preparing…", "准备中…"))
    } else if str_eq(key, "Retry") {
        Some(("Retry", "重试"))
    } else if str_eq(key, "Show in Files") {
        Some(("Show in Files", "在文件管理器中显示"))
    } else if str_eq(key, "Theme") {
        Some(("Theme", "主题"))
    } else if str_eq(key, "Transfer history") {
        Some(("Transfer history", "传输历史"))
    } else if str_eq(key, "System") {
        Some(("System", "跟随系统"))
    } else if str_eq(key, "Light") {
        Some(("Light", "浅色"))
    } else if str_eq(key, "Dark") {
        Some(("Dark", "深色"))
    } else if str_eq(key, "Collapse") {
        Some(("Collapse", "收起"))
    } else if str_eq(key, "Expand") {
        Some(("Expand", "展开"))
    } else if str_eq(key, "Send") {
        Some(("Send", "发送"))
    } else if str_eq(key, "Sending") {
        Some(("Sending", "发送中"))
    } else if str_eq(key, "Receiving") {
        Some(("Receiving", "接收中"))
    } else if str_eq(key, "Waiting for receiver") {
        Some(("Waiting for receiver", "等待接收方"))
    } else if str_eq(key, "Sent") {
        Some(("Sent", "已发送"))
    } else if str_eq(key, "Received") {
        Some(("Received", "已接收"))
    } else if str_eq(key, "Cancelled") {
        Some(("Cancelled", "已取消"))
    } else if str_eq(key, "Failed") {
        Some(("Failed", "失败"))
    } else if str_eq(key, "Connecting…") {
        Some(("Connecting…", "连接中…"))
    } else if str_eq(key, "Disconnected") {
        Some(("Disconnected", "已断开"))
    } else if str_eq(key, "Searching for devices…") {
        Some(("Searching for devices…", "正在搜索设备…"))
    } else if str_eq(key, "Connected") {
        Some(("Connected", "已连接"))
    } else if str_eq(key, "nearby.select") {
        Some(("Select %{name}", "选择 %{name}"))
    } else if str_eq(key, "transfer.to") {
        Some(("to %{name}", "发送至 %{name}"))
    } else {
        None
    }
}

/// The number of entries in the catalog.
pub const CATALOG_SIZE: usize = 141;

/// Appends `key`, a key of the catalog, to a list of catalog keys.
fn push_key(keys: &mut Vec<&'static str>, key: &'static str)
    requires
        catalog_of(key@) is Some,
        forall|i: int| 0 <= i < old(keys)@.len() ==> catalog_of(#[trigger] old(keys)@[i]@) is Some,
    ensures
        final(keys)@ == old(keys)@.push(key),
        forall|i: int| 0 <= i < final(keys)@.len() ==> catalog_of(#[trigger] final(keys)@[i]@) is Some,
{
    keys.push(key);
}

/// Appends the keys of part 0 of the catalog.
fn push_keys_0(keys: &mut Vec<&'static str>)
    requires
        old(keys)@.len() == 0,
        forall|i: int| 0 <= i < old(keys)@.len() ==> catalog_of(#[trigger] old(keys)@[i]@) is Some,
    ensures
        final(keys)@ == old(keys)@ + seq!["error.peer_unreachable", "error.peer_timeout", "error.peer_identity", "error.peer_pin", "error.peer_declined", "error.peer_busy", "error.checksum_retry", "error.transfer_generic", "error.clipboard_empty", "error.clipboard_image_format", "error.network_task", "error.file_task", "error.clipboard_task", "error.no_runtime_dir", "error.clipboard_tmp_kind", "error.clipboard_tmp_mode", "error.clipboard_timeout", "error.wl_clipboard_missing", "error.clipboard_unreadable", "error.clipboard_media_timeout", "error.clipboard_media_changed", "error.clipboard_output", "error.clipboard_text_timeout", "error.clipboard_text_large", "error.clipboard_changed", "error.clipboard_text_empty", "error.symlink", "error.empty_folder", "error.too_many_files", "error.deep_folder"],
        forall|i: int| 0 <= i < final(keys)@.len() ==> catalog_of(#[trigger] final(keys)@[i]@) is Some,
{
    let ghost before = old(keys)@;
    push_key(keys, "error.peer_unreachable");
    push_key(keys, "error.peer_timeout");
    push_key(keys, "error.peer_identity");
    push_key(keys, "error.peer_pin");
    push_key(keys, "error.peer_declined");
    push_key(keys, "error.peer_busy");
    push_key(keys, "error.checksum_retry");
    push_key(keys, "error.transfer_generic");
    push_key(keys, "error.clipboard_empty");
    push_key(keys, "error.clipboard_image_format");
    push_key(keys, "error.network_task");
    push_key(keys, "error.file_task");
    push_key(keys, "error.clipboard_task");
    push_key(keys, "error.no_runtime_dir");
    push_key(keys, "error.clipboard_tmp_kind");
    push_key(keys, "error.clipboard_tmp_mode");
    push_key(keys, "error.clipboard_timeout");
    push_key(keys, "error.wl_clipboard_missing");
    push_key(keys, "error.clipboard_unreadable");
    push_key(keys, "error.clipboard_media_timeout");
    push_key(keys, "error.clipboard_media_changed");
    push_key(keys, "error.clipboard_output");
    push_key(keys, "error.clipboard_text_timeout");
    push_key(keys, "error.clipboard_text_large");
    push_key(keys, "error.clipboard_changed");
    push_key(keys, "error.clipboard_text_empty");
    push_key(keys, "error.symlink");
    push_key(keys, "error.empty_folder");
    push_key(keys, "error.too_many_files");
    push_key(keys, "error.deep_folder");
    assert(keys@ =~= before + seq!["error.peer_unreachable", "error.peer_timeout", "error.peer_identity", "error.peer_pin", "error.peer_declined", "error.peer_busy", "error.checksum_retry", "error.transfer_generic", "error.clipboard_empty", "error.clipboard_image_format", "error.network_task", "error.file_task", "error.clipboard_task", "error.no_runtime_dir", "error.clipboard_tmp_kind", "error.clipboard_tmp_mode", "error.clipboard_timeout", "error.wl_clipboard_missing", "error.clipboard_unreadable", "error.clipboard_media_timeout", "error.clipboard_media_changed", "error.clipboard_output", "error.clipboard_text_timeout", "error.clipboard_text_large", "error.clipboard_changed", "error.clipboard_text_empty", "error.symlink", "error.empty_folder", "error.too_many_files", "error.deep_folder"]);
}

/// Appends the keys of part 1 of the catalog.
fn push_keys_1(keys: &mut Vec<&'static str>)
    requires
        old(keys)@.len() == 30,
        forall|i: int| 0 <= i < old(keys)@.len() ==> catalog_of(#[trigger] old(keys)@[i]@) is Some,
    ensures
        final(keys)@ == old(keys)@ + seq!["error.name_utf8", "error.name_missing", "error.name_invalid", "error.path_unsafe", "error.path_absolute", "error.sender_stopped", "error.cancelled", "error.checksum", "error.overlong", "error.clipboard_unsupported", "error.clipboard_empty_retry", "error.clipboard_list_utf8", "error.clipboard_uri", "error.clipboard_uri_remote", "error.clipboard_uri_extra", "error.clipboard_path", "error.clipboard_no_files", "error.clipboard_text_utf8", "error.clipboard_media_type", "error.no_response", "error.no_files_accepted", "error.unknown_file_id", "error.too_large", "error.network_service", "error.downloads_create", "error.downloads_missing", "error.port_in_use", "error.multicast", "error.transfer_task", "error.encryption_required"],
        forall|i: int| 0 <= i < final(keys)@.len() ==> catalog_of(#[trigger] final(keys)@[i]@) is Some,
{
    let ghost before = old(keys)@;
    push_key(keys, "error.name_utf8");
    push_key(keys, "error.name_missing");
    push_key(keys, "error.name_invalid");
    push_key(keys, "error.path_unsafe");
    push_key(keys, "error.path_absolute");
    push_key(keys, "error.sender_stopped");
    push_key(keys, "error.cancelled");
    push_key(keys, "error.checksum");
    push_key(keys, "error.overlong");
    push_key(keys, "error.clipboard_unsupported");
    push_key(keys, "error.clipboard_empty_retry");
    push_key(keys, "error.clipboard_list_utf8");
    push_key(keys, "error.clipboard_uri");
    push_key(keys, "error.clipboard_uri_remote");
    push_key(keys, "error.clipboard_uri_extra");
    push_key(keys, "error.clipboard_path");
    push_key(keys, "error.clipboard_no_files");
    push_key(keys, "error.clipboard_text_utf8");
    push_key(keys, "error.clipboard_media_type");
    push_key(keys, "error.no_response");
    push_key(keys, "error.no_files_accepted");
    push_key(keys, "error.unknown_file_id");
    push_key(keys, "error.too_large");
    push_key(keys, "error.network_service");
    push_key(keys, "error.downloads_create");
    push_key(keys, "error.downloads_missing");
    push_key(keys, "error.port_in_use");
    push_key(keys, "error.multicast");
    push_key(keys, "error.transfer_task");
    push_key(keys, "error.encryption_required");
    assert(keys@ =~= before + seq!["error.name_utf8", "error.name_missing", "error.name_invalid", "error.path_unsafe", "error.path_absolute", "error.sender_stopped", "error.cancelled", "error.checksum", "error.overlong", "error.clipboard_unsupported", "error.clipboard_empty_retry", "error.clipboard_list_utf8", "error.clipboard_uri", "error.clipboard_uri_remote", "error.clipboard_uri_extra", "error.clipboard_path", "error.clipboard_no_files", "error.clipboard_text_utf8", "error.clipboard_media_type", "error.no_response", "error.no_files_accepted", "error.unknown_file_id", "error.too_large", "error.network_service", "error.downloads_create", "error.downloads_missing", "error.port_in_use", "error.multicast", "error.transfer_task", "error.encryption_required"]);
}

/// Appends the keys of part 2 of the catalog.
fn push_keys_2(keys: &mut Vec<&'static str>)
    requires
        old(keys)@.len() == 60,
        forall|i: int| 0 <= i < old(keys)@.len() ==> catalog_of(#[trigger] old(keys)@[i]@) is Some,
    ensures
        final(keys)@ == old(keys)@ + seq!["error.offer_range", "error.file_id_mismatch", "error.folder_symlink", "error.folder_special", "error.clipboard_file_gone", "action.accept", "action.add_files", "action.cancel", "action.close", "action.copy", "action.decline", "action.paste", "action.preview", "action.preview_ellipsis", "action.remove", "action.send_to", "action.show_in_files", "action.show_text", "composer.drop_hint", "composer.drop_kinds", "dialog.received_text", "history.file_one", "history.file_other", "history.from", "history.item_one", "history.item_other", "receive.destination", "receive.title", "status.copied", "status.done"],
        forall|i: int| 0 <= i < final(keys)@.len() ==> catalog_of(#[trigger] final(keys)@[i]@) is Some,
{
    let ghost before = old(keys)@;
    push_key(keys, "error.offer_range");
    push_key(keys, "error.file_id_mismatch");
    push_key(keys, "error.folder_symlink");
    push_key(keys, "error.folder_special");
    push_key(keys, "error.clipboard_file_gone");
    push_key(keys, "action.accept");
    push_key(keys, "action.add_files");
    push_key(keys, "action.cancel");
    push_key(keys, "action.close");
    push_key(keys, "action.copy");
    push_key(keys, "action.decline");
    push_key(keys, "action.paste");
    push_key(keys, "action.preview");
    push_key(keys, "action.preview_ellipsis");
    push_key(keys, "action.remove");
    push_key(keys, "action.send_to");
    push_key(keys, "action.show_in_files");
    push_key(keys, "action.show_text");
    push_key(keys, "composer.drop_hint");
    push_key(keys, "composer.drop_kinds");
    push_key(keys, "dialog.received_text");
    push_key(keys, "history.file_one");
    push_key(keys, "history.file_other");
    push_key(keys, "history.from");
    push_key(keys, "history.item_one");
    push_key(keys, "history.item_other");
    push_key(keys, "receive.destination");
    push_key(keys, "receive.title");
    push_key(keys, "status.copied");
    push_key(keys, "status.done");
    assert(keys@ =~= before + seq!["error.offer_range", "error.file_id_mismatch", "error.folder_symlink", "error.folder_special", "error.clipboard_file_gone", "action.accept", "action.add_files", "action.cancel", "action.close", "action.copy", "action.decline", "action.paste", "action.preview", "action.preview_ellipsis", "action.remove", "action.send_to", "action.show_in_files", "action.show_text", "composer.drop_hint", "composer.drop_kinds", "dialog.received_text", "history.file_one", "history.file_other", "history.from", "history.item_one", "history.item_other", "receive.destination", "receive.title", "status.copied", "status.done"]);
}

/// Appends the keys of part 3 of the catalog.
fn push_keys_3(keys: &mut Vec<&'static str>)
    requires
        old(keys)@.len() == 90,
        forall|i: int| 0 <= i < old(keys)@.len() ==> catalog_of(#[trigger] old(keys)@[i]@) is Some,
    ensures
        final(keys)@ == old(keys)@ + seq!["update.download", "update.checking", "update.current", "update.no_release", "update.failed", "About…", "Add files…", "Add to OmaSend", "Cancel", "Check for update", "Choose a nearby device", "Clear", "Clear transfer history", "Close", "Dismiss", "Exit", "Language", "Logs", "Logs…", "Looking for devices… Open LocalSend on the same Wi-Fi.", "Menu", "Nearby", "No logs yet", "No transfers yet", "Open", "Outbox", "Paste", "Preparing…", "Retry", "Show in Files"],
        forall|i: int| 0 <= i < final(keys)@.len() ==> catalog_of(#[trigger] final(keys)@[i]@) is Some,
{
    let ghost before = old(keys)@;
    push_key(keys, "update.download");
    push_key(keys, "update.checking");
    push_key(keys, "update.current");
    push_key(keys, "update.no_release");
    push_key(keys, "update.failed");
    push_key(keys, "About…");
    push_key(keys, "Add files…");
    push_key(keys, "Add to OmaSend");
    push_key(keys, "Cancel");
    push_key(keys, "Check for update");
    push_key(keys, "Choose a nearby device");
    push_key(keys, "Clear");
    push_key(keys, "Clear transfer history");
    push_key(keys, "Close");
    push_key(keys, "Dismiss");
    push_key(keys, "Exit");
    push_key(keys, "Language");
    push_key(keys, "Logs");
    push_key(keys, "Logs…");
    push_key(keys, "Looking for devices… Open LocalSend on the same Wi-Fi.");
    push_key(keys, "Menu");
    push_key(keys, "Nearby");
    push_key(keys, "No logs yet");
    push_key(keys, "No transfers yet");
    push_key(keys, "Open");
    push_key(keys, "Outbox");
    push_key(keys, "Paste");
    push_key(keys, "Preparing…");
    push_key(keys, "Retry");
    push_key(keys, "Show in Files");
    assert(keys@ =~= before + seq!["update.download", "update.checking", "update.current", "update.no_release", "update.failed", "About…", "Add files…", "Add to OmaSend", "Cancel", "Check for update", "Choose a nearby device", "Clear", "Clear transfer history", "Close", "Dismiss", "Exit", "Language", "Logs", "Logs…", "Looking for devices… Open LocalSend on the same Wi-Fi.", "Menu", "Nearby", "No logs yet", "No transfers yet", "Open", "Outbox", "Paste", "Preparing…", "Retry", "Show in Files"]);
}

/// Appends the keys of part 4 of the catalog.
fn push_keys_4(keys: &mut Vec<&'static str>)
    requires
        old(keys)@.len() == 120,
        forall|i: int| 0 <= i < old(keys)@.len() ==> catalog_of(#[trigger] old(keys)@[i]@) is Some,
    ensures
        final(keys)@ == old(keys)@ + seq!["Theme", "Transfer history", "System", "Light", "Dark", "Collapse", "Expand", "Send", "Sending", "Receiving", "Waiting for receiver", "Sent", "Received", "Cancelled", "Failed", "Connecting…", "Disconnected", "Searching for devices…", "Connected", "nearby.select", "transfer.to"],
        forall|i: int| 0 <= i < final(keys)@.len() ==> catalog_of(#[trigger] final(keys)@[i]@) is Some,
{
    let ghost before = old(keys)@;
    push_key(keys, "Theme");
    push_key(keys, "Transfer history");
    push_key(keys, "System");
    push_key(keys, "Light");
    push_key(keys, "Dark");
    push_key(keys, "Collapse");
    push_key(keys, "Expand");
    push_key(keys, "Send");
    push_key(keys, "Sending");
    push_key(keys, "Receiving");
    push_key(keys, "Waiting for receiver");
    push_key(keys, "Sent");
    push_key(keys, "Received");
    push_key(keys, "Cancelled");
    push_key(keys, "Failed");
    push_key(keys, "Connecting…");
    push_key(keys, "Disconnected");
    push_key(keys, "Searching for devices…");
    push_key(keys, "Connected");
    push_key(keys, "nearby.select");
    push_key(keys, "transfer.to");
    assert(keys@ =~= before + seq!["Theme", "Transfer history", "System", "Light", "Dark", "Collapse", "Expand", "Send", "Sending", "Receiving", "Waiting for receiver", "Sent", "Received", "Cancelled", "Failed", "Connecting…", "Disconnected", "Searching for devices…", "Connected", "nearby.select", "transfer.to"]);
}

/// The keys of the catalog, in catalog order: as many as it has entries,
/// each a key it knows, and every key it knows among them.
pub fn catalog_keys() -> (r: Vec<&'static str>)
    ensures
        r@.len() == CATALOG_SIZE,
        forall|i: int| 0 <= i < r@.len() ==> catalog_of(#[trigger] r@[i]@) is Some,
        forall|k: Seq<char>| #[trigger] catalog_of(k) is Some ==> exists|i: int| 0 <= i < r@.len() && r@[i]@ == k,
{
    let mut keys: Vec<&'static str> = Vec::new();
    push_keys_0(&mut keys);
    push_keys_1(&mut keys);
    push_keys_2(&mut keys);
    push_keys_3(&mut keys);
    push_keys_4(&mut keys);
    proof {
        assert(keys@[0]@ == "error.peer_unreachable"@);
        assert(keys@[1]@ == "error.peer_timeout"@);
        assert(keys@[2]@ == "error.peer_identity"@);
        assert(keys@[3]@ == "error.peer_pin"@);
        assert(keys@[4]@ == "error.peer_declined"@);
        assert(keys@[5]@ == "error.peer_busy"@);
        assert(keys@[6]@ == "error.checksum_retry"@);
        assert(keys@[7]@ == "error.transfer_generic"@);
        assert(keys@[8]@ == "error.clipboard_empty"@);
        assert(keys@[9]@ == "error.clipboard_image_format"@);
        assert(keys@[10]@ == "error.network_task"@);
        assert(keys@[11]@ == "error.file_task"@);
        assert(keys@[12]@ == "error.clipboard_task"@);
        assert(keys@[13]@ == "error.no_runtime_dir"@);
        assert(keys@[14]@ == "error.clipboard_tmp_kind"@);
        assert(keys@[15]@ == "error.clipboard_tmp_mode"@);
        assert(keys@[16]@ == "error.clipboard_timeout"@);
        assert(keys@[17]@ == "error.wl_clipboard_missing"@);
        assert(keys@[18]@ == "error.clipboard_unreadable"@);
        assert(keys@[19]@ == "error.clipboard_media_timeout"@);
        assert(keys@[20]@ == "error.clipboard_media_changed"@);
        assert(keys@[21]@ == "error.clipboard_output"@);
        assert(keys@[22]@ == "error.clipboard_text_timeout"@);
        assert(keys@[23]@ == "error.clipboard_text_large"@);
        assert(keys@[24]@ == "error.clipboard_changed"@);
        assert(keys@[25]@ == "error.clipboard_text_empty"@);
        assert(keys@[26]@ == "error.symlink"@);
        assert(keys@[27]@ == "error.empty_folder"@);
        assert(keys@[28]@ == "error.too_many_files"@);
        assert(keys@[29]@ == "error.deep_folder"@);
        assert(keys@[30]@ == "error.name_utf8"@);
        assert(keys@[31]@ == "error.name_missing"@);
        assert(keys@[32]@ == "error.name_invalid"@);
        assert(keys@[33]@ == "error.path_unsafe"@);
        assert(keys@[34]@ == "error.path_absolute"@);
        assert(keys@[35]@ == "error.sender_stopped"@);
        assert(keys@[36]@ == "error.cancelled"@);
        assert(keys@[37]@ == "error.checksum"@);
        assert(keys@[38]@ == "error.overlong"@);
        assert(keys@[39]@ == "error.clipboard_unsupported"@);
        assert(keys@[40]@ == "error.clipboard_empty_retry"@);
        assert(keys@[41]@ == "error.clipboard_list_utf8"@);
        assert(keys@[42]@ == "error.clipboard_uri"@);
        assert(keys@[43]@ == "error.clipboard_uri_remote"@);
        assert(keys@[44]@ == "error.clipboard_uri_extra"@);
        assert(keys@[45]@ == "error.clipboard_path"@);
        assert(keys@[46]@ == "error.clipboard_no_files"@);
        assert(keys@[47]@ == "error.clipboard_text_utf8"@);
        assert(keys@[48]@ == "error.clipboard_media_type"@);
        assert(keys@[49]@ == "error.no_response"@);
        assert(keys@[50]@ == "error.no_files_accepted"@);
        assert(keys@[51]@ == "error.unknown_file_id"@);
        assert(keys@[52]@ == "error.too_large"@);
        assert(keys@[53]@ == "error.network_service"@);
        assert(keys@[54]@ == "error.downloads_create"@);
        assert(keys@[55]@ == "error.downloads_missing"@);
        assert(keys@[56]@ == "error.port_in_use"@);
        assert(keys@[57]@ == "error.multicast"@);
        assert(keys@[58]@ == "error.transfer_task"@);
        assert(keys@[59]@ == "error.encryption_required"@);
        assert(keys@[60]@ == "error.offer_range"@);
        assert(keys@[61]@ == "error.file_id_mismatch"@);
        assert(keys@[62]@ == "error.folder_symlink"@);
        assert(keys@[63]@ == "error.folder_special"@);
        assert(keys@[64]@ == "error.clipboard_file_gone"@);
        assert(keys@[65]@ == "action.accept"@);
        assert(keys@[66]@ == "action.add_files"@);
        assert(keys@[67]@ == "action.cancel"@);
        assert(keys@[68]@ == "action.close"@);
        assert(keys@[69]@ == "action.copy"@);
        assert(keys@[70]@ == "action.decline"@);
        assert(keys@[71]@ == "action.paste"@);
        assert(keys@[72]@ == "action.preview"@);
        assert(keys@[73]@ == "action.preview_ellipsis"@);
        assert(keys@[74]@ == "action.remove"@);
        assert(keys@[75]@ == "action.send_to"@);
        assert(keys@[76]@ == "action.show_in_files"@);
        assert(keys@[77]@ == "action.show_text"@);
        assert(keys@[78]@ == "composer.drop_hint"@);
        assert(keys@[79]@ == "composer.drop_kinds"@);
        assert(keys@[80]@ == "dialog.received_text"@);
        assert(keys@[81]@ == "history.file_one"@);
        assert(keys@[82]@ == "history.file_other"@);
        assert(keys@[83]@ == "history.from"@);
        assert(keys@[84]@ == "history.item_one"@);
        assert(keys@[85]@ == "history.item_other"@);
        assert(keys@[86]@ == "receive.destination"@);
        assert(keys@[87]@ == "receive.title"@);
        assert(keys@[88]@ == "status.copied"@);
        assert(keys@[89]@ == "status.done"@);
        assert(keys@[90]@ == "update.download"@);
        assert(keys@[91]@ == "update.checking"@);
        assert(keys@[92]@ == "update.current"@);
        assert(keys@[93]@ == "update.no_release"@);
        assert(keys@[94]@ == "update.failed"@);
        assert(keys@[95]@ == "About…"@);
        assert(keys@[96]@ == "Add files…"@);
        assert(keys@[97]@ == "Add to OmaSend"@);
        assert(keys@[98]@ == "Cancel"@);
        assert(keys@[99]@ == "Check for update"@);
        assert(keys@[100]@ == "Choose a nearby device"@);
        assert(keys@[101]@ == "Clear"@);
        assert(keys@[102]@ == "Clear transfer history"@);
        assert(keys@[103]@ == "Close"@);
        assert(keys@[104]@ == "Dismiss"@);
        assert(keys@[105]@ == "Exit"@);
        assert(keys@[106]@ == "Language"@);
        assert(keys@[107]@ == "Logs"@);
        assert(keys@[108]@ == "Logs…"@);
        assert(keys@[109]@ == "Looking for devices… Open LocalSend on the same Wi-Fi."@);
        assert(keys@[110]@ == "Menu"@);
        assert(keys@[111]@ == "Nearby"@);
        assert(keys@[112]@ == "No logs yet"@);
        assert(keys@[113]@ == "No transfers yet"@);
        assert(keys@[114]@ == "Open"@);
        assert(keys@[115]@ == "Outbox"@);
        assert(keys@[116]@ == "Paste"@);
        assert(keys@[117]@ == "Preparing…"@);
        assert(keys@[118]@ == "Retry"@);
        assert(keys@[119]@ == "Show in Files"@);
        assert(keys@[120]@ == "Theme"@);
        assert(keys@[121]@ == "Transfer history"@);
        assert(keys@[122]@ == "System"@);
        assert(keys@[123]@ == "Light"@);
        assert(keys@[124]@ == "Dark"@);
        assert(keys@[125]@ == "Collapse"@);
        assert(keys@[126]@ == "Expand"@);
        assert(keys@[127]@ == "Send"@);
        assert(keys@[128]@ == "Sending"@);
        assert(keys@[129]@ == "Receiving"@);
        assert(keys@[130]@ == "Waiting for receiver"@);
        assert(keys@[131]@ == "Sent"@);
        assert(keys@[132]@ == "Received"@);
        assert(keys@[133]@ == "Cancelled"@);
        assert(keys@[134]@ == "Failed"@);
        assert(keys@[135]@ == "Connecting…"@);
        assert(keys@[136]@ == "Disconnected"@);
        assert(keys@[137]@ == "Searching for devices…"@);
        assert(keys@[138]@ == "Connected"@);
        assert(keys@[139]@ == "nearby.select"@);
        assert(keys@[140]@ == "transfer.to"@);
    }
    keys
}

/// Every key an error phrase has is a key of the catalog.
pub proof fn lemma_error_keys_in_catalog(phrase: Seq<char>)
    ensures
        error_key_of(phrase) matches Some(k) ==> catalog_of(k) is Some,
{
    assert(catalog_of("error.cancelled"@) is Some);
    assert(catalog_of("error.checksum"@) is Some);
    assert(catalog_of("error.checksum_retry"@) is Some);
    assert(catalog_of("error.clipboard_changed"@) is Some);
    assert(catalog_of("error.clipboard_empty"@) is Some);
    assert(catalog_of("error.clipboard_empty_retry"@) is Some);
    assert(catalog_of("error.clipboard_file_gone"@) is Some);
    assert(catalog_of("error.clipboard_image_format"@) is Some);
    assert(catalog_of("error.clipboard_list_utf8"@) is Some);
    assert(catalog_of("error.clipboard_media_changed"@) is Some);
    assert(catalog_of("error.clipboard_media_timeout"@) is Some);
    assert(catalog_of("error.clipboard_media_type"@) is Some);
    assert(catalog_of("error.clipboard_no_files"@) is Some);
    assert(catalog_of("error.clipboard_output"@) is Some);
    assert(catalog_of("error.clipboard_path"@) is Some);
    assert(catalog_of("error.clipboard_task"@) is Some);
    assert(catalog_of("error.clipboard_text_empty"@) is Some);
    assert(catalog_of("error.clipboard_text_large"@) is Some);
    assert(catalog_of("error.clipboard_text_timeout"@) is Some);
    assert(catalog_of("error.clipboard_text_utf8"@) is Some);
    assert(catalog_of("error.clipboard_timeout"@) is Some);
    assert(catalog_of("error.clipboard_tmp_kind"@) is Some);
    assert(catalog_of("error.clipboard_tmp_mode"@) is Some);
    assert(catalog_of("error.clipboard_unreadable"@) is Some);
    assert(catalog_of("error.clipboard_unsupported"@) is Some);
    assert(catalog_of("error.clipboard_uri"@) is Some);
    assert(catalog_of("error.clipboard_uri_extra"@) is Some);
    assert(catalog_of("error.clipboard_uri_remote"@) is Some);
    assert(catalog_of("error.deep_folder"@) is Some);
    assert(catalog_of("error.downloads_create"@) is Some);
    assert(catalog_of("error.downloads_missing"@) is Some);
    assert(catalog_of("error.empty_folder"@) is Some);
    assert(catalog_of("error.encryption_required"@) is Some);
    assert(catalog_of("error.file_id_mismatch"@) is Some);
    assert(catalog_of("error.file_task"@) is Some);
    assert(catalog_of("error.folder_special"@) is Some);
    assert(catalog_of("error.folder_symlink"@) is Some);
    assert(catalog_of("error.multicast"@) is Some);
    assert(catalog_of("error.name_invalid"@) is Some);
    assert(catalog_of("error.name_missing"@) is Some);
    assert(catalog_of("error.name_utf8"@) is Some);
    assert(catalog_of("error.network_service"@) is Some);
    assert(catalog_of("error.network_task"@) is Some);
    assert(catalog_of("error.no_files_accepted"@) is Some);
    assert(catalog_of("error.no_response"@) is Some);
    assert(catalog_of("error.no_runtime_dir"@) is Some);
    assert(catalog_of("error.offer_range"@) is Some);
    assert(catalog_of("error.overlong"@) is Some);
    assert(catalog_of("error.path_absolute"@) is Some);
    assert(catalog_of("error.path_unsafe"@) is Some);
    assert(catalog_of("error.peer_busy"@) is Some);
    assert(catalog_of("error.peer_declined"@) is Some);
    assert(catalog_of("error.peer_identity"@) is Some);
    assert(catalog_of("error.peer_pin"@) is Some);
    assert(catalog_of("error.peer_timeout"@) is Some);
    assert(catalog_of("error.peer_unreachable"@) is Some);
    assert(catalog_of("error.port_in_use"@) is Some);
    assert(catalog_of("error.sender_stopped"@) is Some);
    assert(catalog_of("error.symlink"@) is Some);
    assert(catalog_of("error.too_large"@) is Some);
    assert(catalog_of("error.too_many_files"@) is Some);
    assert(catalog_of("error.transfer_generic"@) is Some);
    assert(catalog_of("error.transfer_task"@) is Some);
    assert(catalog_of("error.unknown_file_id"@) is Some);
    assert(catalog_of("error.wl_clipboard_missing"@) is Some);
}

} // verus!
