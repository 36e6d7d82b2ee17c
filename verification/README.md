# mediachat_native

The MediaChat overlay shows chats (text, pictures, videos, sounds) sent
from Discord on a transparent full-screen window, one at a time.

`src/` is the verified library (Verus):

- `media.rs` — the chat and its options;
- `player.rs` — the display state: a FIFO of chats whose head is on screen,
  what each event does to it and what it asks the program to do, the video
  frame clock, and the laws of the queue;
- `overlay.rs` — what is drawn: labels, text colour, which picture, how
  often to repaint;
- `color.rs` — CSS hex colours (`#rrggbb`, `#rgb`);
- `picture.rs` — decoding pictures and baking the circular avatar mask;
- `probe.rs` — reading the ffprobe report of a video.

`app/` is the program around it: the window (egui/eframe), downloads,
the ffmpeg/ffplay processes, the tray icon and the command line.
