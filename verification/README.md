# vk_video_vulkan

Vulkan Video decoding of H.264, H.265, VP9 and AV1 streams. The library decides; a
small crate around it carries the decisions out on a device.

## Layout

* `src/` is the library. It is written in Verus: every function states what it
  returns, and the statement is proved. Nothing in it talks to a device. It takes plain
  values (bytes, parsed headers, handles, what a device reported) and returns what is
  to be done.
* `app/` talks to the device through `ash`: it creates the device, the session, the
  images and the buffers, records and submits commands, and reads pixels back. The
  parsers of slice and frame headers are given to it.
* `tests/` runs the library.

## Modules of the library

| Module | What it decides |
| --- | --- |
| `bits`, `slice_header` | reading bits; H.265 slice headers, order counts and reference sets |
| `access_unit`, `extractor` | which NAL units make up a picture; parameter sets in the stream |
| `container`, `obu` | IVF, VP9 superframes and frame boundaries; AV1 frame units |
| `detect`, `stream_info` | the codec of a stream, its dimensions, depth and slots |
| `dpb` | reference frames: sliding window, marking commands, choice of slots |
| `h264`, `h265`, `av1`, `av1_picture`, `commands` | parameter sets and decode commands |
| `decoder`, `decode_h26x`, `decode_vp9`, `decode_av1` | the steps of decoding a stream |
| `presentation`, `readback`, `image` | the order of frames; pixels from samples |
| `device`, `session`, `profile_chain`, `buffer`, `codes` | what devices, sessions and memory are created with |
| `pipeline` | decoding frame by frame |
| `error`, `text` | errors and their messages |

## Laws

What holds of the library as a whole stands beside the functions it speaks of, as
public proof functions whose names begin with `law_`: among them that reordering
loses no frame and keeps groups of pictures apart, that a picture which is still needed
is not overwritten while there is another slot, and that what is read out of a
container is what was put into it.

## What is taken on trust

The codes of Vulkan constants come from `ash`. The functions that read them are in
`codes`, and each says which constants it stands for.
